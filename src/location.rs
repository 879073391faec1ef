//! Spans of source text, and their rendering for diagnostics.

use vstd::prelude::*;
use crate::grammar::{lemma_line_end, line_end};
use crate::text::{chars_of, decimal, push_char, push_decimal};

verus! {

/// A span of the source text: where it starts (1-based line and column, byte offset),
/// how many characters it covers, and the name of the source, if it has one.
#[derive(Clone, Debug, PartialEq)]
pub struct SourceCodeLocation {
    pub line: usize,
    pub column: usize,
    pub offset: usize,
    pub length: usize,
    pub filename: Option<String>,
}

/// What a `SourceCodeLocation` holds, with the name as characters.
pub struct LocationView {
    pub line: nat,
    pub column: nat,
    pub offset: nat,
    pub length: nat,
    pub filename: Option<Seq<char>>,
}

/// The characters of an optional name.
pub open spec fn name_view(n: Option<String>) -> Option<Seq<char>> {
    match n {
        Some(s) => Some(s@),
        None => None,
    }
}

impl View for SourceCodeLocation {
    type V = LocationView;

    open spec fn view(&self) -> LocationView {
        LocationView {
            line: self.line as nat,
            column: self.column as nat,
            offset: self.offset as nat,
            length: self.length as nat,
            filename: name_view(self.filename),
        }
    }
}

/// A copy of an optional name.
pub fn copy_name(n: &Option<String>) -> (r: Option<String>)
    ensures
        name_view(r) == name_view(*n),
{
    match n {
        Some(s) => Some(s.clone()),
        None => None,
    }
}

impl SourceCodeLocation {
    pub fn new(
        line: usize,
        column: usize,
        offset: usize,
        length: usize,
        filename: Option<String>,
    ) -> (r: Self)
        ensures
            r.line == line,
            r.column == column,
            r.offset == offset,
            r.length == length,
            r.filename == filename,
    {
        SourceCodeLocation { line, column, offset, length, filename }
    }
}

/// Where line `k` (counted from 0) of `s` starts: after its `k`-th line feed.
pub open spec fn line_start(s: Seq<char>, k: nat) -> int
    decreases k,
{
    if k == 0 {
        0
    } else {
        line_end(s, line_start(s, (k - 1) as nat)) + 1
    }
}

/// Whether `s` has a line `k` (counted from 0). A line feed ends a line; text after
/// the last line feed, if any, is one more line.
pub open spec fn has_line(s: Seq<char>, k: nat) -> bool {
    line_start(s, k) < s.len()
}

/// The text of line `k` (counted from 0), without its line ending (a line feed, or a
/// carriage return and a line feed).
pub open spec fn line_text(s: Seq<char>, k: nat) -> Seq<char> {
    let a = line_start(s, k);
    let b = line_end(s, a);
    if b < s.len() && b > a && s[b - 1] == '\r' {
        s.subrange(a, b - 1)
    } else {
        s.subrange(a, b)
    }
}

pub open spec fn repeat(c: char, n: nat) -> Seq<char> {
    Seq::new(n, |i: int| c)
}

/// The name shown for a source: its own, or `unknown`.
pub open spec fn shown_name(n: Option<Seq<char>>) -> Seq<char> {
    match n {
        Some(t) => t,
        None => "unknown"@,
    }
}

/// A location shown against the source text: a header with the source's name, line,
/// column and offset, a blank line, the source line, and a line of carets under the
/// span. `None` if the source has no such line.
pub open spec fn rendered(l: LocationView, s: Seq<char>) -> Option<Seq<char>> {
    if l.line >= 1 && has_line(s, (l.line - 1) as nat) {
        Some(
            "Error at "@ + shown_name(l.filename) + ":"@ + decimal(l.line) + ":"@ + decimal(
                l.column,
            ) + ":"@ + decimal(l.offset) + "\n\n"@ + line_text(s, (l.line - 1) as nat) + "\n"@
                + repeat(' ', if l.column >= 1 {
                (l.column - 1) as nat
            } else {
                0
            }) + repeat('^', l.length),
        )
    } else {
        None
    }
}

/// The characters of an optional string.
pub open spec fn opt_text(o: Option<String>) -> Option<Seq<char>> {
    match o {
        Some(t) => Some(t@),
        None => None,
    }
}

proof fn lemma_no_line_after(s: Seq<char>, k: nat, j: nat)
    requires
        k <= j,
        line_start(s, k) >= s.len(),
    ensures
        line_start(s, j) >= s.len(),
    decreases j - k,
{
    if k < j {
        lemma_no_line_after(s, k, (j - 1) as nat);
        lemma_line_end(s, line_start(s, (j - 1) as nat));
    }
}

/// The index just past the end of line `k`'s text, if line `k` exists.
fn find_line_end(chars: &Vec<char>, a: usize) -> (r: usize)
    requires
        a <= chars@.len(),
    ensures
        r == line_end(chars@, a as int),
{
    let mut i = a;
    while i < chars.len() && chars[i] != '\n'
        invariant
            a <= i <= chars@.len(),
            line_end(chars@, a as int) == line_end(chars@, i as int),
        decreases chars@.len() - i,
    {
        i += 1;
    }
    i
}

/// Appends `n` copies of `c`.
fn push_repeat(s: &mut String, c: char, n: usize)
    ensures
        final(s)@ == old(s)@ + repeat(c, n as nat),
{
    let mut i: usize = 0;
    while i < n
        invariant
            i <= n,
            s@ == old(s)@ + repeat(c, i as nat),
        decreases n - i,
    {
        push_char(s, c);
        i += 1;
        proof {
            assert(s@ =~= old(s)@ + repeat(c, i as nat));
        }
    }
}

/// Appends characters `a` up to `b` of `chars`.
fn push_slice(s: &mut String, chars: &Vec<char>, a: usize, b: usize)
    requires
        a <= b <= chars@.len(),
    ensures
        final(s)@ == old(s)@ + chars@.subrange(a as int, b as int),
{
    let mut i = a;
    while i < b
        invariant
            a <= i <= b <= chars@.len(),
            s@ == old(s)@ + chars@.subrange(a as int, i as int),
        decreases b - i,
    {
        push_char(s, chars[i]);
        i += 1;
        proof {
            assert(s@ =~= old(s)@ + chars@.subrange(a as int, i as int));
        }
    }
}

impl SourceCodeLocation {
    /// Two lines that show where this location lies: the source line it starts on,
    /// and under it a caret for each character of the span, after a header naming
    /// the source, line, column and offset. `None` if the source has no such line.
    pub fn line_in_source_code(&self, source_code: &String) -> (r: Option<String>)
        ensures
            opt_text(r) == rendered(self@, source_code@),
    {
        if self.line == 0 {
            return None;
        }
        let chars = chars_of(source_code.as_str());
        let ghost s = chars@;
        let target = self.line - 1;
        let mut k: usize = 0;
        let mut a: usize = 0;
        if chars.len() == 0 {
            proof {
                lemma_no_line_after(s, 0, target as nat);
            }
            return None;
        }
        while k < target
            invariant
                k <= target,
                target == self.line - 1,
                s == chars@,
                s == source_code@,
                a == line_start(s, k as nat),
                a < s.len(),
            decreases target - k,
        {
            let b = find_line_end(&chars, a);
            proof {
                lemma_line_end(s, a as int);
            }
            if b >= chars.len() {
                proof {
                    lemma_no_line_after(s, (k + 1) as nat, target as nat);
                }
                return None;
            }
            a = b + 1;
            k += 1;
            if a >= chars.len() {
                proof {
                    lemma_no_line_after(s, k as nat, target as nat);
                }
                return None;
            }
        }
        if a >= chars.len() {
            return None;
        }
        let b = find_line_end(&chars, a);
        proof {
            lemma_line_end(s, a as int);
        }
        let text_end = if b < chars.len() && b > a && chars[b - 1] == '\r' {
            b - 1
        } else {
            b
        };
        let mut out = String::new();
        out.append("Error at ");
        match &self.filename {
            Some(n) => out.append(n.as_str()),
            None => out.append("unknown"),
        }
        out.append(":");
        push_decimal(&mut out, self.line);
        out.append(":");
        push_decimal(&mut out, self.column);
        out.append(":");
        push_decimal(&mut out, self.offset);
        out.append("\n\n");
        push_slice(&mut out, &chars, a, text_end);
        out.append("\n");
        push_repeat(&mut out, ' ', if self.column >= 1 { self.column - 1 } else { 0 });
        push_repeat(&mut out, '^', self.length);
        Some(out)
    }
}

} // verus!
