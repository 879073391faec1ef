//! A forward-only walker over source text that keeps line, column and byte offset.

use vstd::prelude::*;

verus! {

/// The number of bytes UTF-8 takes to encode a character.
pub open spec fn utf8_width(c: char) -> nat {
    if (c as u32) < 0x80 {
        1
    } else if (c as u32) < 0x800 {
        2
    } else if (c as u32) < 0x10000 {
        3
    } else {
        4
    }
}

/// The 1-based line on which position `p` of `s` lies.
pub open spec fn line_at(s: Seq<char>, p: int) -> nat
    decreases p,
{
    if p <= 0 {
        1
    } else if s[p - 1] == '\n' {
        line_at(s, p - 1) + 1
    } else {
        line_at(s, p - 1)
    }
}

/// The 1-based column of position `p` of `s`.
pub open spec fn column_at(s: Seq<char>, p: int) -> nat
    decreases p,
{
    if p <= 0 {
        1
    } else if s[p - 1] == '\n' {
        1
    } else {
        column_at(s, p - 1) + 1
    }
}

/// The byte offset, in UTF-8, of position `p` of `s`.
pub open spec fn offset_at(s: Seq<char>, p: int) -> nat
    decreases p,
{
    if p <= 0 {
        0
    } else {
        offset_at(s, p - 1) + utf8_width(s[p - 1])
    }
}

/// The length in bytes of the UTF-8 encoding of `s`.
pub open spec fn utf8_len(s: Seq<char>) -> nat {
    offset_at(s, s.len() as int)
}

proof fn lemma_positions_small(s: Seq<char>, p: int)
    requires
        0 <= p <= s.len(),
    ensures
        line_at(s, p) <= p + 1,
        column_at(s, p) <= p + 1,
        p <= offset_at(s, p),
    decreases p,
{
    if p > 0 {
        lemma_positions_small(s, p - 1);
    }
}

proof fn lemma_offset_monotone(s: Seq<char>, p: int, q: int)
    requires
        0 <= p <= q <= s.len(),
    ensures
        offset_at(s, p) <= offset_at(s, q),
    decreases q - p,
{
    if p < q {
        lemma_offset_monotone(s, p, q - 1);
    }
}

/// Line, column and offset stay within the byte length of the text.
proof fn lemma_positions_bounded(s: Seq<char>, p: int)
    requires
        0 <= p <= s.len(),
    ensures
        line_at(s, p) <= utf8_len(s) + 1,
        column_at(s, p) <= utf8_len(s) + 1,
        offset_at(s, p) <= utf8_len(s),
        s.len() <= utf8_len(s),
{
    lemma_positions_small(s, p);
    lemma_positions_small(s, s.len() as int);
    lemma_offset_monotone(s, p, s.len() as int);
}

fn width(c: char) -> (r: usize)
    ensures
        r == utf8_width(c),
{
    let n = c as u32;
    if n < 0x80 {
        1
    } else if n < 0x800 {
        2
    } else if n < 0x10000 {
        3
    } else {
        4
    }
}

/// Reads characters one at a time. Reaching the end is an explicit state: `current`
/// is then `None`, and advancing further changes nothing.
pub struct Cursor {
    chars: Vec<char>,
    pos: usize,
    line: usize,
    column: usize,
    offset: usize,
}

impl Cursor {
    /// The text being read.
    pub closed spec fn text(&self) -> Seq<char> {
        self.chars@
    }

    /// How many characters have been consumed.
    pub closed spec fn pos(&self) -> int {
        self.pos as int
    }

    pub closed spec fn wf(&self) -> bool {
        &&& self.pos <= self.chars@.len()
        &&& utf8_len(self.chars@) < usize::MAX
        &&& self.line == line_at(self.chars@, self.pos as int)
        &&& self.column == column_at(self.chars@, self.pos as int)
        &&& self.offset == offset_at(self.chars@, self.pos as int)
    }

    pub proof fn lemma_bounds(&self)
        requires
            self.wf(),
        ensures
            0 <= self.pos() <= self.text().len(),
            utf8_len(self.text()) < usize::MAX,
    {
    }

    pub fn new(chars: Vec<char>) -> (r: Cursor)
        requires
            utf8_len(chars@) < usize::MAX,
        ensures
            r.wf(),
            r.text() == chars@,
            r.pos() == 0,
    {
        Cursor { chars, pos: 0, line: 1, column: 1, offset: 0 }
    }

    pub fn position(&self) -> (r: usize)
        requires
            self.wf(),
        ensures
            r == self.pos(),
            r <= self.text().len(),
    {
        self.pos
    }

    /// The 1-based line of the current position.
    pub fn line(&self) -> (r: usize)
        requires
            self.wf(),
        ensures
            r == line_at(self.text(), self.pos()),
    {
        self.line
    }

    /// The 1-based column of the current position.
    pub fn column(&self) -> (r: usize)
        requires
            self.wf(),
        ensures
            r == column_at(self.text(), self.pos()),
    {
        self.column
    }

    /// The byte offset of the current position.
    pub fn offset(&self) -> (r: usize)
        requires
            self.wf(),
        ensures
            r == offset_at(self.text(), self.pos()),
    {
        self.offset
    }

    pub fn is_end(&self) -> (r: bool)
        requires
            self.wf(),
        ensures
            r == (self.pos() >= self.text().len()),
    {
        self.pos >= self.chars.len()
    }

    /// The character at the current position, or `None` at the end.
    pub fn current(&self) -> (r: Option<char>)
        requires
            self.wf(),
        ensures
            r == char_at(self.text(), self.pos()),
    {
        if self.pos < self.chars.len() {
            Some(self.chars[self.pos])
        } else {
            None
        }
    }

    /// The character after the current one, or `None` if there is none.
    pub fn peek(&self) -> (r: Option<char>)
        requires
            self.wf(),
        ensures
            r == char_at(self.text(), self.pos() + 1),
    {
        if self.pos < self.chars.len() && self.pos + 1 < self.chars.len() {
            Some(self.chars[self.pos + 1])
        } else {
            None
        }
    }

    /// Consumes the current character and returns it; at the end, returns `None`
    /// and stays there.
    pub fn advance(&mut self) -> (r: Option<char>)
        requires
            old(self).wf(),
        ensures
            final(self).wf(),
            final(self).text() == old(self).text(),
            final(self).pos() <= final(self).text().len(),
            r == char_at(old(self).text(), old(self).pos()),
            final(self).pos() == if old(self).pos() < old(self).text().len() {
                old(self).pos() + 1
            } else {
                old(self).pos()
            },
    {
        if self.pos >= self.chars.len() {
            return None;
        }
        let c = self.chars[self.pos];
        proof {
            lemma_positions_bounded(self.chars@, self.pos as int + 1);
        }
        self.pos = self.pos + 1;
        if c == '\n' {
            self.line = self.line + 1;
            self.column = 1;
        } else {
            self.column = self.column + 1;
        }
        self.offset = self.offset + width(c);
        Some(c)
    }
}

/// The character at position `p` of `s`, if there is one.
pub open spec fn char_at(s: Seq<char>, p: int) -> Option<char> {
    if 0 <= p < s.len() {
        Some(s[p])
    } else {
        None
    }
}

} // verus!
