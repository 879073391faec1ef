//! The lexer: one pass over the source, one token (or the first error) per step.

use vstd::prelude::*;
use crate::cursor::{utf8_len, Cursor};
use crate::error::{texts_view, LexError, LexErrorType, LexErrorView};
use crate::grammar::{
    char_step, decimal_number, dots, escape_of, hex_end, hex_number, lemma_step_advances, lex,
    lex_from, lexeme_view, line_end, number_end, number_step, prefix_with, prepend, quoted,
    step, step_end, string_step, symbol_step, word_end, word_step, Failure, Lexeme, Step,
};
use crate::location::{copy_name, name_view, SourceCodeLocation};
use crate::text::{
    chars_of, class_of, classify_all, digit, hex_digit, hex_digit_value, hex_value, is_digit,
    is_hex_digit, string_of, CharClass,
};
use crate::token::{Keyword, Token, TokenKind, TokenView};

verus! {

/// Lexers that turn their source into a list of tokens, or fail with the first error.
pub trait Tokenize {
    type TokenType;

    fn tokenize(self) -> Result<Vec<Self::TokenType>, LexError>;
}

/// What one step of scanning produced.
enum Scanned {
    Skip,
    Token(TokenKind),
    Error(LexErrorType),
}

spec fn agrees(o: Scanned, st: Step) -> bool {
    match (o, st) {
        (Scanned::Skip, Step::Skip(_)) => true,
        (Scanned::Token(k), Step::Emit(v, _)) => k@ == v,
        (Scanned::Error(t), Step::Fail(v, _)) => t@ == v,
        _ => false,
    }
}

/// The cursor has moved from `a` to the end of step `st` over the same text.
spec fn moved(a: Cursor, b: Cursor, st: Step) -> bool {
    &&& b.wf()
    &&& b.text() == a.text()
    &&& b.pos() == step_end(st)
}

spec fn glue(d0: Seq<char>, r: Option<(Seq<char>, int)>) -> Option<(Seq<char>, int)> {
    match r {
        Some((d, e)) => Some((d0 + d, e)),
        None => None,
    }
}

proof fn lemma_glue_push(d0: Seq<char>, c: char, r: Option<(Seq<char>, int)>)
    ensures
        glue(d0, prepend(c, r)) == glue(d0.push(c), r),
{
    if let Some((d, e)) = r {
        assert(d0 + (seq![c] + d) =~= d0.push(c) + d);
    }
}

fn same_char(o: Option<char>, c: char) -> (r: bool)
    ensures
        r == (o == Some(c)),
{
    match o {
        Some(x) => x == c,
        None => false,
    }
}

fn escape(c: char) -> (r: Option<char>)
    ensures
        r == escape_of(c),
{
    if c == '\\' {
        Some('\\')
    } else if c == '0' {
        Some('\0')
    } else if c == '"' {
        Some('"')
    } else if c == 'n' {
        Some('\n')
    } else if c == 'r' {
        Some('\r')
    } else if c == 't' {
        Some('\t')
    } else {
        None
    }
}

/// Reads an identifier or a reserved word.
fn scan_word(cur: &mut Cursor, cls: &Vec<CharClass>) -> (r: Scanned)
    requires
        old(cur).wf(),
        old(cur).pos() < old(cur).text().len(),
        cls@.len() == old(cur).text().len(),
    ensures
        agrees(r, word_step(old(cur).text(), cls@, old(cur).pos())),
        moved(*old(cur), *final(cur), word_step(old(cur).text(), cls@, old(cur).pos())),
{
    let ghost s = cur.text();
    let ghost p = cur.pos();
    proof {
        cur.lemma_bounds();
    }
    let mut buf: Vec<char> = Vec::new();
    if let Some(c) = cur.advance() {
        buf.push(c);
    }
    loop
        invariant
            cur.wf(),
            cur.text() == s,
            s == old(cur).text(),
            p == old(cur).pos(),
            0 <= p,
            p < cur.pos() <= s.len(),
            buf@ == s.subrange(p, cur.pos()),
            cls@.len() == s.len(),
            word_end(s, cls@, p + 1) == word_end(s, cls@, cur.pos()),
        ensures
            cur.wf(),
            cur.text() == s,
            buf@ == s.subrange(p, cur.pos()),
            cur.pos() == word_end(s, cls@, p + 1),
        decreases s.len() - cur.pos(),
    {
        let i = cur.position();
        match cur.current() {
            Some(c) => {
                if cls[i].letter || cls[i].numeral || c == '_' {
                    buf.push(c);
                    cur.advance();
                    proof {
                        assert(buf@ =~= s.subrange(p, cur.pos()));
                    }
                } else {
                    break;
                }
            },
            None => {
                break;
            },
        }
    }
    match Keyword::from_word(buf.as_slice()) {
        Some(k) => Scanned::Token(TokenKind::Keyword(k)),
        None => Scanned::Token(TokenKind::Ident(string_of(buf.as_slice()))),
    }
}

/// Reads the body of a quoted literal, the cursor standing on the opening quote.
fn scan_quoted(cur: &mut Cursor, q: char) -> (r: Option<Vec<char>>)
    requires
        old(cur).wf(),
        old(cur).pos() < old(cur).text().len(),
    ensures
        final(cur).wf(),
        final(cur).text() == old(cur).text(),
        r matches Some(d) ==> quoted(old(cur).text(), old(cur).pos() + 1, q) == Some(
            (d@, final(cur).pos()),
        ),
        r is None ==> quoted(old(cur).text(), old(cur).pos() + 1, q) is None && final(cur).pos()
            == old(cur).text().len(),
{
    let ghost s = cur.text();
    let ghost p = cur.pos();
    proof {
        cur.lemma_bounds();
    }
    cur.advance();
    let mut buf: Vec<char> = Vec::new();
    loop
        invariant
            cur.wf(),
            cur.text() == s,
            s == old(cur).text(),
            p == old(cur).pos(),
            0 <= p,
            p < cur.pos() <= s.len(),
            quoted(s, p + 1, q) == glue(buf@, quoted(s, cur.pos(), q)),
        decreases s.len() - cur.pos(),
    {
        let ghost i = cur.pos();
        match cur.current() {
            None => {
                return None;
            },
            Some(c) => {
                if c == q {
                    cur.advance();
                    proof {
                        assert(buf@ + Seq::<char>::empty() =~= buf@);
                    }
                    return Some(buf);
                } else if c == '\\' {
                    let e = match cur.peek() {
                        Some(x) => escape(x),
                        None => None,
                    };
                    match e {
                        Some(d) => {
                            proof {
                                lemma_glue_push(buf@, d, quoted(s, i + 2, q));
                            }
                            buf.push(d);
                            cur.advance();
                            cur.advance();
                        },
                        None => {
                            cur.advance();
                        },
                    }
                } else {
                    proof {
                        lemma_glue_push(buf@, c, quoted(s, i + 1, q));
                    }
                    buf.push(c);
                    cur.advance();
                }
            },
        }
    }
}

fn scan_string(cur: &mut Cursor) -> (r: Scanned)
    requires
        old(cur).wf(),
        old(cur).pos() < old(cur).text().len(),
    ensures
        agrees(r, string_step(old(cur).text(), old(cur).pos())),
        moved(*old(cur), *final(cur), string_step(old(cur).text(), old(cur).pos())),
{
    match scan_quoted(cur, '"') {
        Some(d) => Scanned::Token(TokenKind::Str(string_of(d.as_slice()))),
        None => Scanned::Error(LexErrorType::InvalidString),
    }
}

fn scan_char(cur: &mut Cursor) -> (r: Scanned)
    requires
        old(cur).wf(),
        old(cur).pos() < old(cur).text().len(),
    ensures
        agrees(r, char_step(old(cur).text(), old(cur).pos())),
        moved(*old(cur), *final(cur), char_step(old(cur).text(), old(cur).pos())),
{
    match scan_quoted(cur, '\'') {
        Some(d) => {
            if d.len() == 1 {
                Scanned::Token(TokenKind::Char(d[0]))
            } else {
                Scanned::Error(LexErrorType::InvalidCharacterLiteral)
            }
        },
        None => Scanned::Error(LexErrorType::InvalidCharacterLiteral),
    }
}

proof fn lemma_hex_number_step(t: Seq<char>, i: int)
    requires
        0 <= i < t.len(),
    ensures
        hex_number(t.subrange(0, i + 1)) == hex_number(t.subrange(0, i)) * 16 + hex_digit_value(
            t[i],
        ),
{
    assert(t.subrange(0, i + 1).drop_last() =~= t.subrange(0, i));
}

proof fn lemma_hex_number_grows(t: Seq<char>, i: int, j: int)
    requires
        0 <= i <= j <= t.len(),
    ensures
        hex_number(t.subrange(0, i)) <= hex_number(t.subrange(0, j)),
    decreases j - i,
{
    if i < j {
        lemma_hex_number_step(t, j - 1);
        lemma_hex_number_grows(t, i, j - 1);
    }
}

proof fn lemma_decimal_number_step(t: Seq<char>, i: int)
    requires
        0 <= i < t.len(),
    ensures
        decimal_number(t.subrange(0, i + 1)) == decimal_number(t.subrange(0, i)) * 10 + (
        t[i] as nat - '0' as nat) as nat,
{
    assert(t.subrange(0, i + 1).drop_last() =~= t.subrange(0, i));
}

proof fn lemma_decimal_number_grows(t: Seq<char>, i: int, j: int)
    requires
        0 <= i <= j <= t.len(),
    ensures
        decimal_number(t.subrange(0, i)) <= decimal_number(t.subrange(0, j)),
    decreases j - i,
{
    if i < j {
        lemma_decimal_number_step(t, j - 1);
        lemma_decimal_number_grows(t, i, j - 1);
    }
}

/// The value of a hexadecimal numeral, if it fits in an `i64`.
fn hex_literal_value(t: &[char]) -> (r: Option<i64>)
    requires
        forall|i: int| 0 <= i < t@.len() ==> is_hex_digit(#[trigger] t@[i]),
    ensures
        r == if hex_number(t@) <= i64::MAX {
            Some(hex_number(t@) as i64)
        } else {
            None::<i64>
        },
{
    let mut acc: u64 = 0;
    let mut i: usize = 0;
    while i < t.len()
        invariant
            i <= t@.len(),
            forall|j: int| 0 <= j < t@.len() ==> is_hex_digit(#[trigger] t@[j]),
            acc == hex_number(t@.subrange(0, i as int)),
            acc <= i64::MAX,
        decreases t@.len() - i,
    {
        let d = hex_value(t[i]);
        proof {
            lemma_hex_number_step(t@, i as int);
        }
        if acc > (0x7fff_ffff_ffff_ffffu64 - d) / 16 {
            proof {
                lemma_hex_number_grows(t@, i as int + 1, t@.len() as int);
                assert(t@.subrange(0, t@.len() as int) =~= t@);
            }
            return None;
        }
        acc = acc * 16 + d;
        i += 1;
    }
    proof {
        assert(t@.subrange(0, t@.len() as int) =~= t@);
    }
    Some(acc as i64)
}

/// The value of a decimal numeral, if it fits in an `i64`.
fn decimal_literal_value(t: &[char]) -> (r: Option<i64>)
    requires
        forall|i: int| 0 <= i < t@.len() ==> is_digit(#[trigger] t@[i]),
    ensures
        r == if decimal_number(t@) <= i64::MAX {
            Some(decimal_number(t@) as i64)
        } else {
            None::<i64>
        },
{
    let mut acc: u64 = 0;
    let mut i: usize = 0;
    while i < t.len()
        invariant
            i <= t@.len(),
            forall|j: int| 0 <= j < t@.len() ==> is_digit(#[trigger] t@[j]),
            acc == decimal_number(t@.subrange(0, i as int)),
            acc <= i64::MAX,
        decreases t@.len() - i,
    {
        let d: u64 = (t[i] as u64) - ('0' as u64);
        proof {
            lemma_decimal_number_step(t@, i as int);
        }
        if acc > (0x7fff_ffff_ffff_ffffu64 - d) / 10 {
            proof {
                lemma_decimal_number_grows(t@, i as int + 1, t@.len() as int);
                assert(t@.subrange(0, t@.len() as int) =~= t@);
            }
            return None;
        }
        acc = acc * 10 + d;
        i += 1;
    }
    proof {
        assert(t@.subrange(0, t@.len() as int) =~= t@);
    }
    Some(acc as i64)
}

proof fn lemma_dots_push(t: Seq<char>, c: char)
    ensures
        dots(t.push(c)) == dots(t) + if c == '.' {
            1nat
        } else {
            0nat
        },
{
    assert(t.push(c).drop_last() =~= t);
}

/// Reads a number: `0x` and hexadecimal digits, or decimal digits and points.
fn scan_number(cur: &mut Cursor) -> (r: Scanned)
    requires
        old(cur).wf(),
        old(cur).pos() < old(cur).text().len(),
        is_digit(old(cur).text()[old(cur).pos()]),
    ensures
        agrees(r, number_step(old(cur).text(), old(cur).pos())),
        moved(*old(cur), *final(cur), number_step(old(cur).text(), old(cur).pos())),
{
    let ghost s = cur.text();
    let ghost p = cur.pos();
    proof {
        cur.lemma_bounds();
    }
    let first = cur.current();
    let hex = same_char(first, '0') && same_char(cur.peek(), 'x');
    let mut buf: Vec<char> = Vec::new();
    if hex {
        cur.advance();
        cur.advance();
        loop
            invariant
                cur.wf(),
                cur.text() == s,
                0 <= p,
                p + 2 <= cur.pos() <= s.len(),
                buf@ == s.subrange(p + 2, cur.pos()),
                forall|j: int| 0 <= j < buf@.len() ==> is_hex_digit(#[trigger] buf@[j]),
                hex_end(s, p + 2) == hex_end(s, cur.pos()),
            ensures
                cur.wf(),
                cur.text() == s,
                buf@ == s.subrange(p + 2, cur.pos()),
                forall|j: int| 0 <= j < buf@.len() ==> is_hex_digit(#[trigger] buf@[j]),
                cur.pos() == hex_end(s, p + 2),
            decreases s.len() - cur.pos(),
        {
            match cur.current() {
                Some(c) => {
                    if hex_digit(c) {
                        buf.push(c);
                        cur.advance();
                        proof {
                            assert(buf@ =~= s.subrange(p + 2, cur.pos()));
                        }
                    } else {
                        break;
                    }
                },
                None => {
                    break;
                },
            }
        }
        if buf.len() == 0 {
            return Scanned::Error(LexErrorType::InvalidHexadecimalNumber);
        }
        match hex_literal_value(buf.as_slice()) {
            Some(v) => Scanned::Token(TokenKind::Int(v)),
            None => Scanned::Error(LexErrorType::InvalidHexadecimalNumber),
        }
    } else {
        let mut points: usize = 0;
        loop
            invariant
                cur.wf(),
                cur.text() == s,
                0 <= p,
                p <= cur.pos() <= s.len(),
                buf@ == s.subrange(p, cur.pos()),
                points == if dots(buf@) >= 2 {
                    2
                } else {
                    dots(buf@)
                },
                forall|j: int| 0 <= j < buf@.len() ==> is_digit(#[trigger] buf@[j]) || buf@[j] == '.',
                number_end(s, p) == number_end(s, cur.pos()),
            ensures
                cur.wf(),
                cur.text() == s,
                buf@ == s.subrange(p, cur.pos()),
                points == if dots(buf@) >= 2 {
                    2
                } else {
                    dots(buf@)
                },
                forall|j: int| 0 <= j < buf@.len() ==> is_digit(#[trigger] buf@[j]) || buf@[j] == '.',
                cur.pos() == number_end(s, p),
            decreases s.len() - cur.pos(),
        {
            match cur.current() {
                Some(c) => {
                    if digit(c) || c == '.' {
                        proof {
                            lemma_dots_push(buf@, c);
                        }
                        if c == '.' && points < 2 {
                            points = points + 1;
                        }
                        buf.push(c);
                        cur.advance();
                        proof {
                            assert(buf@ =~= s.subrange(p, cur.pos()));
                        }
                    } else {
                        break;
                    }
                },
                None => {
                    break;
                },
            }
        }
        if points >= 2 {
            Scanned::Error(LexErrorType::InvalidFloatingPointNumber)
        } else if points == 1 {
            Scanned::Token(TokenKind::Float(string_of(buf.as_slice())))
        } else {
            proof {
                assert forall|i: int| 0 <= i < buf@.len() implies is_digit(#[trigger] buf@[i]) by {
                    lemma_no_dots(buf@, i);
                }
            }
            match decimal_literal_value(buf.as_slice()) {
                Some(v) => Scanned::Token(TokenKind::Int(v)),
                None => Scanned::Error(LexErrorType::InvalidInteger),
            }
        }
    }
}

/// In a run of digits and points without a point, every character is a digit.
proof fn lemma_no_dots(t: Seq<char>, i: int)
    requires
        0 <= i < t.len(),
        dots(t) == 0,
        forall|j: int| 0 <= j < t.len() ==> is_digit(#[trigger] t[j]) || t[j] == '.',
    ensures
        is_digit(t[i]),
    decreases t.len(),
{
    assert(is_digit(t[i]) || t[i] == '.');
    if i < t.len() - 1 {
        assert(t.drop_last()[i] == t[i]);
        lemma_no_dots(t.drop_last(), i);
    }
}

/// A one-character symbol, or its two-character form when `second` follows; the
/// cursor stands after the first character, which `nx` followed.
fn one_or_two_chars(
    cur: &mut Cursor,
    nx: Option<char>,
    second: char,
    long: TokenKind,
    short: TokenKind,
) -> (r: Scanned)
    requires
        old(cur).wf(),
    ensures
        final(cur).wf(),
        final(cur).text() == old(cur).text(),
        nx == Some(second) ==> r == Scanned::Token(long) && final(cur).pos() == if old(cur).pos()
            < old(cur).text().len() {
            old(cur).pos() + 1
        } else {
            old(cur).pos()
        },
        nx != Some(second) ==> r == Scanned::Token(short) && final(cur).pos() == old(cur).pos(),
{
    if same_char(nx, second) {
        cur.advance();
        Scanned::Token(long)
    } else {
        Scanned::Token(short)
    }
}

/// Reads punctuation or an operator.
fn scan_symbol(cur: &mut Cursor) -> (r: Scanned)
    requires
        old(cur).wf(),
        old(cur).pos() < old(cur).text().len(),
    ensures
        agrees(r, symbol_step(old(cur).text(), old(cur).pos())),
        moved(*old(cur), *final(cur), symbol_step(old(cur).text(), old(cur).pos())),
{
    proof {
        cur.lemma_bounds();
    }
    let ghost s = cur.text();
    let ghost p = cur.pos();
    let c = match cur.current() {
        Some(c) => c,
        None => ' ',
    };
    let nx = cur.peek();
    cur.advance();
    if c == '(' {
        Scanned::Token(TokenKind::LeftParen)
    } else if c == ')' {
        Scanned::Token(TokenKind::RightParen)
    } else if c == '{' {
        Scanned::Token(TokenKind::LeftBrace)
    } else if c == '}' {
        Scanned::Token(TokenKind::RightBrace)
    } else if c == '[' {
        Scanned::Token(TokenKind::LeftBracket)
    } else if c == ']' {
        Scanned::Token(TokenKind::RightBracket)
    } else if c == '\\' {
        Scanned::Token(TokenKind::BackSlash)
    } else if c == ',' {
        Scanned::Token(TokenKind::Comma)
    } else if c == '.' {
        Scanned::Token(TokenKind::Dot)
    } else if c == ';' {
        Scanned::Token(TokenKind::SemiColon)
    } else if c == ':' {
        one_or_two_chars(cur, nx, ':', TokenKind::DoubleColon, TokenKind::Colon)
    } else if c == '+' {
        one_or_two_chars(cur, nx, '=', TokenKind::PlusEq, TokenKind::Plus)
    } else if c == '-' {
        if same_char(nx, '>') {
            cur.advance();
            Scanned::Token(TokenKind::MinusGreaterThan)
        } else {
            one_or_two_chars(cur, nx, '=', TokenKind::MinusEq, TokenKind::Minus)
        }
    } else if c == '*' {
        one_or_two_chars(cur, nx, '=', TokenKind::MulEq, TokenKind::Mul)
    } else if c == '/' {
        one_or_two_chars(cur, nx, '=', TokenKind::DivEq, TokenKind::Div)
    } else if c == '%' {
        one_or_two_chars(cur, nx, '=', TokenKind::RemEq, TokenKind::Rem)
    } else if c == '>' {
        one_or_two_chars(cur, nx, '=', TokenKind::GreaterThanOrEq, TokenKind::GreaterThan)
    } else if c == '<' {
        one_or_two_chars(cur, nx, '=', TokenKind::LessThanOrEq, TokenKind::LessThan)
    } else if c == '!' {
        one_or_two_chars(cur, nx, '=', TokenKind::BangEq, TokenKind::Bang)
    } else if c == '=' {
        if same_char(nx, '>') {
            cur.advance();
            Scanned::Token(TokenKind::EqGreaterThan)
        } else {
            one_or_two_chars(cur, nx, '=', TokenKind::DoubleEq, TokenKind::Eq)
        }
    } else if c == '&' {
        if same_char(nx, '&') {
            cur.advance();
            Scanned::Token(TokenKind::DoubleAmp)
        } else {
            let expected = vec!["&&"];
            assert(texts_view(expected@) =~= seq!["&&"@]);
            Scanned::Error(LexErrorType::InvalidToken(expected))
        }
    } else if c == '|' {
        if same_char(nx, '|') {
            cur.advance();
            Scanned::Token(TokenKind::DoubleVertical)
        } else {
            let expected = vec!["||"];
            assert(texts_view(expected@) =~= seq!["||"@]);
            Scanned::Error(LexErrorType::InvalidToken(expected))
        }
    } else {
        Scanned::Error(LexErrorType::InvalidCharacter)
    }
}

/// Skips a comment: from the cursor up to the next line feed, or to the end.
fn skip_line(cur: &mut Cursor)
    requires
        old(cur).wf(),
    ensures
        final(cur).wf(),
        final(cur).text() == old(cur).text(),
        final(cur).pos() == line_end(old(cur).text(), old(cur).pos()),
{
    proof {
        cur.lemma_bounds();
    }
    let ghost s = cur.text();
    let ghost p = cur.pos();
    loop
        invariant
            cur.wf(),
            cur.text() == s,
            0 <= p <= cur.pos() <= s.len(),
            line_end(s, p) == line_end(s, cur.pos()),
        ensures
            cur.wf(),
            cur.text() == s,
            cur.pos() == line_end(s, p),
        decreases s.len() - cur.pos(),
    {
        match cur.current() {
            Some(c) => {
                if c == '\n' {
                    break;
                }
                cur.advance();
            },
            None => {
                break;
            },
        }
    }
}

/// Takes one step of scanning at the cursor.
fn scan(cur: &mut Cursor, cls: &Vec<CharClass>) -> (r: Scanned)
    requires
        old(cur).wf(),
        old(cur).pos() < old(cur).text().len(),
        cls@.len() == old(cur).text().len(),
    ensures
        agrees(r, step(old(cur).text(), cls@, old(cur).pos())),
        moved(*old(cur), *final(cur), step(old(cur).text(), cls@, old(cur).pos())),
{
    proof {
        cur.lemma_bounds();
    }
    let i = cur.position();
    let c = match cur.current() {
        Some(c) => c,
        None => ' ',
    };
    if c == '/' && same_char(cur.peek(), '/') {
        cur.advance();
        cur.advance();
        skip_line(cur);
        Scanned::Skip
    } else if c == '\n' || cls[i].blank {
        cur.advance();
        Scanned::Skip
    } else if cls[i].letter || c == '_' {
        scan_word(cur, cls)
    } else if c == '"' {
        scan_string(cur)
    } else if c == '\'' {
        scan_char(cur)
    } else if digit(c) {
        scan_number(cur)
    } else {
        scan_symbol(cur)
    }
}

/// What a call of `tokenize` returned, with text as characters.
pub open spec fn result_view(r: Result<Vec<Token>, LexError>) -> Result<Seq<TokenView>, LexErrorView> {
    match r {
        Ok(v) => Ok(v@.map_values(|t: Token| t@)),
        Err(e) => Err(e@),
    }
}

proof fn lemma_prefix_with_push(done: Seq<Lexeme>, l: Lexeme, r: Result<Seq<Lexeme>, Failure>)
    ensures
        prefix_with(done, prefix_with(seq![l], r)) == prefix_with(done.push(l), r),
{
    if let Ok(rest) = r {
        assert(done + (seq![l] + rest) =~= done.push(l) + rest);
    }
}

/// Holds what tokenizing needs: the characters of the source, read through a
/// cursor, and the name of the source, if it has one.
pub struct Lexer {
    filename: Option<String>,
    cursor: Cursor,
    classes: Vec<CharClass>,
}

impl Lexer {
    /// The text to tokenize.
    pub closed spec fn source(&self) -> Seq<char> {
        self.cursor.text()
    }

    /// The name of the source, if it has one.
    pub closed spec fn name(&self) -> Option<Seq<char>> {
        name_view(self.filename)
    }

    /// The Unicode classes of each character of the source.
    pub closed spec fn classes(&self) -> Seq<CharClass> {
        self.classes@
    }

    #[verifier::type_invariant]
    closed spec fn inv(&self) -> bool {
        &&& self.cursor.wf()
        &&& self.cursor.pos() == 0
        &&& self.classes@.len() == self.cursor.text().len()
    }

    /// A lexer for `source`, named `filename` in diagnostics. The source's UTF-8
    /// length is below `usize::MAX`, as that of every `String` is.
    pub fn new(filename: Option<String>, source: &String) -> (r: Self)
        requires
            utf8_len(source@) < usize::MAX,
        ensures
            r.source() == source@,
            r.name() == name_view(filename),
            r.classes() == source@.map_values(|c: char| class_of(c)),
    {
        let chars = chars_of(source.as_str());
        let classes = classify_all(&chars);
        Lexer { filename, cursor: Cursor::new(chars), classes }
    }

    /// A lexer for `source`, given the classes of each of its characters.
    pub fn with_classes(filename: Option<String>, source: &String, classes: Vec<CharClass>) -> (r:
        Self)
        requires
            utf8_len(source@) < usize::MAX,
            classes@.len() == source@.len(),
        ensures
            r.source() == source@,
            r.name() == name_view(filename),
            r.classes() == classes@,
    {
        let chars = chars_of(source.as_str());
        Lexer { filename, cursor: Cursor::new(chars), classes }
    }
}

impl Tokenize for Lexer {
    type TokenType = Token;

    /// The tokens of the whole source, in order, each with the span it was read from;
    /// or the first error, and no tokens.
    fn tokenize(self) -> (r: Result<Vec<Token>, LexError>)
        ensures
            result_view(r) == lex(self.source(), self.classes(), self.name()),
    {
        proof {
            use_type_invariant(&self);
        }
        let filename = self.filename;
        let mut cursor = self.cursor;
        let classes = self.classes;
        let ghost cls = classes@;
        let ghost s = cursor.text();
        let ghost name = name_view(filename);
        let ghost mut done: Seq<Lexeme> = Seq::empty();
        let mut tokens: Vec<Token> = Vec::new();
        proof {
            assert(prefix_with(done, lex_from(s, cls, 0)) == lex_from(s, cls, 0)) by {
                if let Ok(rest) = lex_from(s, cls, 0) {
                    assert(done + rest =~= rest);
                }
            }
            assert(tokens@.map_values(|t: Token| t@) =~= done.map_values(
                |l: Lexeme| lexeme_view(s, name, l),
            ));
        }
        while !cursor.is_end()
            invariant
                cursor.wf(),
                cursor.text() == s,
                name_view(filename) == name,
                s == self.source(),
                name == self.name(),
                cls == self.classes(),
                classes@ == cls,
                cls.len() == s.len(),
                lex_from(s, cls, 0) == prefix_with(done, lex_from(s, cls, cursor.pos())),
                tokens@.map_values(|t: Token| t@) == done.map_values(
                    |l: Lexeme| lexeme_view(s, name, l),
                ),
            decreases s.len() - cursor.pos(),
        {
            proof {
                cursor.lemma_bounds();
            }
            let line = cursor.line();
            let column = cursor.column();
            let offset = cursor.offset();
            let start = cursor.position();
            let ghost p = cursor.pos();
            let scanned = scan(&mut cursor, &classes);
            let ghost e = cursor.pos();
            proof {
                lemma_step_advances(s, cls, p);
            }
            match scanned {
                Scanned::Skip => {},
                Scanned::Token(kind) => {
                    let loc = SourceCodeLocation::new(
                        line,
                        column,
                        offset,
                        cursor.position() - start,
                        copy_name(&filename),
                    );
                    let ghost l = Lexeme { kind: kind@, start: p, end: e };
                    let token = Token::new(kind, loc);
                    proof {
                        lemma_prefix_with_push(done, l, lex_from(s, cls, e));
                        assert(token@ == lexeme_view(s, name, l));
                    }
                    let ghost before = tokens@;
                    tokens.push(token);
                    proof {
                        let f = |t: Token| t@;
                        let g = |l: Lexeme| lexeme_view(s, name, l);
                        assert(before.map_values(f) == done.map_values(g));
                        assert(before.len() == done.len()) by {
                            assert(before.map_values(f).len() == done.map_values(g).len());
                        }
                        assert(tokens@ == before.push(token));
                        assert forall|i: int| 0 <= i < tokens@.len() implies #[trigger] tokens@.map_values(
                            f,
                        )[i] == done.push(l).map_values(g)[i] by {
                            if i < before.len() {
                                assert(before.map_values(f)[i] == done.map_values(g)[i]);
                                assert(tokens@[i] == before[i]);
                                assert(done.push(l)[i] == done[i]);
                            } else {
                                assert(tokens@[i] == token);
                                assert(done.push(l)[i] == l);
                            }
                        }
                        assert(tokens@.map_values(f) =~= done.push(l).map_values(g));
                        done = done.push(l);
                    }
                },
                Scanned::Error(t) => {
                    let loc = SourceCodeLocation::new(
                        line,
                        column,
                        offset,
                        cursor.position() - start,
                        copy_name(&filename),
                    );
                    let err = LexError::new(t, loc);
                    proof {
                        assert(lex_from(s, cls, p) == Err::<Seq<Lexeme>, Failure>(
                            Failure { kind: t@, start: p, end: e },
                        ));
                    }
                    return Err(err);
                },
            }
        }
        proof {
            assert(done + Seq::<Lexeme>::empty() =~= done);
        }
        Ok(tokens)
    }
}

} // verus!
