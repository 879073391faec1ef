//! The lexical grammar, as spec functions over the characters of the source.
//!
//! Scanning proceeds from a position `p`. At each position one `Step` is taken: a
//! run of blank text or a comment is skipped, a token is read, or scanning fails.
//! Tokens and errors span the characters from `p` to the end the step gives.

use vstd::prelude::*;
use crate::cursor::{column_at, line_at, offset_at};
use crate::error::{ErrorKindView, LexErrorView};
use crate::location::LocationView;
use crate::text::{hex_digit_value, is_digit, is_hex_digit, is_word_char, CharClass};
use crate::token::{keyword_of, KindView, TokenKind, TokenView};

verus! {

/// The outcome of scanning at one position.
pub enum Step {
    /// Nothing is produced; scanning resumes at the position given.
    Skip(int),
    /// A token of the given kind ends at the position given.
    Emit(KindView, int),
    /// Scanning fails with the given error, whose span ends at the position given.
    Fail(ErrorKindView, int),
}

/// Whether the character after position `p` is `c`.
pub open spec fn next_is(s: Seq<char>, p: int, c: char) -> bool {
    p + 1 < s.len() && s[p + 1] == c
}

/// The end of the run of identifier characters that starts at `i`.
pub open spec fn word_end(s: Seq<char>, cls: Seq<CharClass>, i: int) -> int
    decreases s.len() - i,
{
    if 0 <= i < s.len() && is_word_char(s, cls, i) {
        word_end(s, cls, i + 1)
    } else {
        i
    }
}

/// The end of the run of hexadecimal digits that starts at `i`.
pub open spec fn hex_end(s: Seq<char>, i: int) -> int
    decreases s.len() - i,
{
    if 0 <= i < s.len() && is_hex_digit(s[i]) {
        hex_end(s, i + 1)
    } else {
        i
    }
}

/// The end of the run of decimal digits and points that starts at `i`.
pub open spec fn number_end(s: Seq<char>, i: int) -> int
    decreases s.len() - i,
{
    if 0 <= i < s.len() && (is_digit(s[i]) || s[i] == '.') {
        number_end(s, i + 1)
    } else {
        i
    }
}

/// The position of the first line feed at or after `i`, or the end of the text.
pub open spec fn line_end(s: Seq<char>, i: int) -> int
    decreases s.len() - i,
{
    if 0 <= i < s.len() && s[i] != '\n' {
        line_end(s, i + 1)
    } else if i < s.len() {
        i
    } else {
        s.len() as int
    }
}

/// The number of points in a text.
pub open spec fn dots(t: Seq<char>) -> nat
    decreases t.len(),
{
    if t.len() == 0 {
        0
    } else {
        dots(t.drop_last()) + if t.last() == '.' {
            1nat
        } else {
            0nat
        }
    }
}

/// The value of a numeral in base 16.
pub open spec fn hex_number(t: Seq<char>) -> nat
    decreases t.len(),
{
    if t.len() == 0 {
        0
    } else {
        hex_number(t.drop_last()) * 16 + hex_digit_value(t.last())
    }
}

/// The value of a numeral in base 10.
pub open spec fn decimal_number(t: Seq<char>) -> nat
    decreases t.len(),
{
    if t.len() == 0 {
        0
    } else {
        decimal_number(t.drop_last()) * 10 + (t.last() as nat - '0' as nat) as nat
    }
}

/// The character that a backslash followed by `c` stands for, if `c` names an escape.
pub open spec fn escape_of(c: char) -> Option<char> {
    if c == '\\' {
        Some('\\')
    } else if c == '0' {
        Some('\0')
    } else if c == '"' {
        Some('"')
    } else if c == 'n' {
        Some('\n')
    } else if c == 'r' {
        Some('\r')
    } else if c == 't' {
        Some('\t')
    } else {
        None
    }
}

/// Reads the body of a quoted literal from `i` up to the closing quote `q`: the decoded
/// text and the position after the closing quote, or `None` if the text ends first.
/// A backslash before a character that names no escape is dropped, and that character
/// is read as usual.
pub open spec fn quoted(s: Seq<char>, i: int, q: char) -> Option<(Seq<char>, int)>
    decreases s.len() - i,
{
    if i < 0 || i >= s.len() {
        None
    } else if s[i] == q {
        Some((Seq::empty(), i + 1))
    } else if s[i] == '\\' && i + 1 < s.len() && escape_of(s[i + 1]) is Some {
        prepend(escape_of(s[i + 1])->0, quoted(s, i + 2, q))
    } else if s[i] == '\\' {
        quoted(s, i + 1, q)
    } else {
        prepend(s[i], quoted(s, i + 1, q))
    }
}

pub open spec fn prepend(c: char, r: Option<(Seq<char>, int)>) -> Option<(Seq<char>, int)> {
    match r {
        Some((d, e)) => Some((seq![c] + d, e)),
        None => None,
    }
}

pub open spec fn symbol(k: TokenKind) -> KindView {
    KindView::Symbol(k)
}

/// A one-character symbol, or its two-character form when `second` follows.
pub open spec fn one_or_two(s: Seq<char>, p: int, second: char, long: TokenKind, short: TokenKind) -> Step {
    if next_is(s, p, second) {
        Step::Emit(symbol(long), p + 2)
    } else {
        Step::Emit(symbol(short), p + 1)
    }
}

/// Punctuation and operators at position `p`.
pub open spec fn symbol_step(s: Seq<char>, p: int) -> Step {
    let c = s[p];
    if c == '(' {
        Step::Emit(symbol(TokenKind::LeftParen), p + 1)
    } else if c == ')' {
        Step::Emit(symbol(TokenKind::RightParen), p + 1)
    } else if c == '{' {
        Step::Emit(symbol(TokenKind::LeftBrace), p + 1)
    } else if c == '}' {
        Step::Emit(symbol(TokenKind::RightBrace), p + 1)
    } else if c == '[' {
        Step::Emit(symbol(TokenKind::LeftBracket), p + 1)
    } else if c == ']' {
        Step::Emit(symbol(TokenKind::RightBracket), p + 1)
    } else if c == '\\' {
        Step::Emit(symbol(TokenKind::BackSlash), p + 1)
    } else if c == ',' {
        Step::Emit(symbol(TokenKind::Comma), p + 1)
    } else if c == '.' {
        Step::Emit(symbol(TokenKind::Dot), p + 1)
    } else if c == ';' {
        Step::Emit(symbol(TokenKind::SemiColon), p + 1)
    } else if c == ':' {
        one_or_two(s, p, ':', TokenKind::DoubleColon, TokenKind::Colon)
    } else if c == '+' {
        one_or_two(s, p, '=', TokenKind::PlusEq, TokenKind::Plus)
    } else if c == '-' {
        if next_is(s, p, '>') {
            Step::Emit(symbol(TokenKind::MinusGreaterThan), p + 2)
        } else {
            one_or_two(s, p, '=', TokenKind::MinusEq, TokenKind::Minus)
        }
    } else if c == '*' {
        one_or_two(s, p, '=', TokenKind::MulEq, TokenKind::Mul)
    } else if c == '/' {
        one_or_two(s, p, '=', TokenKind::DivEq, TokenKind::Div)
    } else if c == '%' {
        one_or_two(s, p, '=', TokenKind::RemEq, TokenKind::Rem)
    } else if c == '>' {
        one_or_two(s, p, '=', TokenKind::GreaterThanOrEq, TokenKind::GreaterThan)
    } else if c == '<' {
        one_or_two(s, p, '=', TokenKind::LessThanOrEq, TokenKind::LessThan)
    } else if c == '!' {
        one_or_two(s, p, '=', TokenKind::BangEq, TokenKind::Bang)
    } else if c == '=' {
        if next_is(s, p, '>') {
            Step::Emit(symbol(TokenKind::EqGreaterThan), p + 2)
        } else {
            one_or_two(s, p, '=', TokenKind::DoubleEq, TokenKind::Eq)
        }
    } else if c == '&' {
        if next_is(s, p, '&') {
            Step::Emit(symbol(TokenKind::DoubleAmp), p + 2)
        } else {
            Step::Fail(ErrorKindView::InvalidToken(seq!["&&"@]), p + 1)
        }
    } else if c == '|' {
        if next_is(s, p, '|') {
            Step::Emit(symbol(TokenKind::DoubleVertical), p + 2)
        } else {
            Step::Fail(ErrorKindView::InvalidToken(seq!["||"@]), p + 1)
        }
    } else {
        Step::Fail(ErrorKindView::InvalidCharacter, p + 1)
    }
}

/// An identifier or a reserved word starting at `p`.
pub open spec fn word_step(s: Seq<char>, cls: Seq<CharClass>, p: int) -> Step {
    let e = word_end(s, cls, p + 1);
    let t = s.subrange(p, e);
    match keyword_of(t) {
        Some(k) => Step::Emit(KindView::Keyword(k), e),
        None => Step::Emit(KindView::Ident(t), e),
    }
}

/// A number starting at `p`: `0x` and hexadecimal digits, or decimal digits with at
/// most one point.
pub open spec fn number_step(s: Seq<char>, p: int) -> Step {
    if s[p] == '0' && next_is(s, p, 'x') {
        let q = p + 2;
        let e = hex_end(s, q);
        let v = hex_number(s.subrange(q, e));
        if e == q {
            Step::Fail(ErrorKindView::InvalidHexadecimalNumber, q)
        } else if v <= i64::MAX {
            Step::Emit(KindView::Int(v as i64), e)
        } else {
            Step::Fail(ErrorKindView::InvalidHexadecimalNumber, e)
        }
    } else {
        let e = number_end(s, p);
        let t = s.subrange(p, e);
        let v = decimal_number(t);
        if dots(t) >= 2 {
            Step::Fail(ErrorKindView::InvalidFloatingPointNumber, e)
        } else if dots(t) == 1 {
            Step::Emit(KindView::Float(t), e)
        } else if v <= i64::MAX {
            Step::Emit(KindView::Int(v as i64), e)
        } else {
            Step::Fail(ErrorKindView::InvalidInteger, e)
        }
    }
}

/// A string literal starting at `p`. A literal that the text ends inside, with no
/// closing quote, is an `InvalidString` error spanning the rest of the text.
pub open spec fn string_step(s: Seq<char>, p: int) -> Step {
    match quoted(s, p + 1, '"') {
        Some((d, e)) => Step::Emit(KindView::Str(d), e),
        None => Step::Fail(ErrorKindView::InvalidString, s.len() as int),
    }
}

/// A character literal starting at `p`: its body must decode to exactly one character.
/// A literal that the text ends inside is an `InvalidCharacterLiteral` error spanning
/// the rest of the text.
pub open spec fn char_step(s: Seq<char>, p: int) -> Step {
    match quoted(s, p + 1, '\'') {
        Some((d, e)) => if d.len() == 1 {
            Step::Emit(KindView::Char(d[0]), e)
        } else {
            Step::Fail(ErrorKindView::InvalidCharacterLiteral, e)
        },
        None => Step::Fail(ErrorKindView::InvalidCharacterLiteral, s.len() as int),
    }
}

/// The step taken at position `p`, by the character there and its classes `cls[p]`.
pub open spec fn step(s: Seq<char>, cls: Seq<CharClass>, p: int) -> Step {
    let c = s[p];
    if c == '/' && next_is(s, p, '/') {
        Step::Skip(line_end(s, p + 2))
    } else if c == '\n' || cls[p].blank {
        Step::Skip(p + 1)
    } else if cls[p].letter || c == '_' {
        word_step(s, cls, p)
    } else if c == '"' {
        string_step(s, p)
    } else if c == '\'' {
        char_step(s, p)
    } else if is_digit(c) {
        number_step(s, p)
    } else {
        symbol_step(s, p)
    }
}

/// Where the step at `p` ends.
pub open spec fn step_end(st: Step) -> int {
    match st {
        Step::Skip(e) => e,
        Step::Emit(_, e) => e,
        Step::Fail(_, e) => e,
    }
}

/// A token read from the text, with its span.
pub struct Lexeme {
    pub kind: KindView,
    pub start: int,
    pub end: int,
}

/// A failure, with its span.
pub struct Failure {
    pub kind: ErrorKindView,
    pub start: int,
    pub end: int,
}

pub open spec fn prefix_with(
    ls: Seq<Lexeme>,
    r: Result<Seq<Lexeme>, Failure>,
) -> Result<Seq<Lexeme>, Failure> {
    match r {
        Ok(rest) => Ok(ls + rest),
        Err(f) => Err(f),
    }
}

/// The tokens of the text from position `p` on, or the first failure; `cls` holds
/// the classes of each character.
pub open spec fn lex_from(s: Seq<char>, cls: Seq<CharClass>, p: int) -> Result<Seq<Lexeme>, Failure>
    decreases s.len() - p,
    via lex_from_decreases
{
    if p < 0 || p >= s.len() {
        Ok(Seq::empty())
    } else {
        match step(s, cls, p) {
            Step::Skip(e) => lex_from(s, cls, e),
            Step::Emit(k, e) => prefix_with(
                seq![Lexeme { kind: k, start: p, end: e }],
                lex_from(s, cls, e),
            ),
            Step::Fail(k, e) => Err(Failure { kind: k, start: p, end: e }),
        }
    }
}

#[via_fn]
proof fn lex_from_decreases(s: Seq<char>, cls: Seq<CharClass>, p: int) {
    if 0 <= p < s.len() {
        lemma_step_advances(s, cls, p);
    }
}

proof fn lemma_word_end(s: Seq<char>, cls: Seq<CharClass>, i: int)
    ensures
        word_end(s, cls, i) >= i,
        0 <= i <= s.len() ==> word_end(s, cls, i) <= s.len(),
    decreases s.len() - i,
{
    if 0 <= i < s.len() && is_word_char(s, cls, i) {
        lemma_word_end(s, cls, i + 1);
    }
}

proof fn lemma_hex_end(s: Seq<char>, i: int)
    ensures
        hex_end(s, i) >= i,
        0 <= i <= s.len() ==> hex_end(s, i) <= s.len(),
    decreases s.len() - i,
{
    if 0 <= i < s.len() && is_hex_digit(s[i]) {
        lemma_hex_end(s, i + 1);
    }
}

proof fn lemma_number_end(s: Seq<char>, i: int)
    ensures
        number_end(s, i) >= i,
        0 <= i <= s.len() ==> number_end(s, i) <= s.len(),
    decreases s.len() - i,
{
    if 0 <= i < s.len() && (is_digit(s[i]) || s[i] == '.') {
        lemma_number_end(s, i + 1);
    }
}

pub proof fn lemma_line_end(s: Seq<char>, i: int)
    ensures
        0 <= i <= s.len() ==> i <= line_end(s, i) <= s.len(),
        line_end(s, i) <= s.len(),
        0 <= line_end(s, i) < s.len() ==> s[line_end(s, i)] == '\n',
    decreases s.len() - i,
{
    if 0 <= i < s.len() && s[i] != '\n' {
        lemma_line_end(s, i + 1);
    }
}

proof fn lemma_quoted_end(s: Seq<char>, i: int, q: char)
    ensures
        quoted(s, i, q) matches Some((d, e)) ==> i < e <= s.len(),
    decreases s.len() - i,
{
    if 0 <= i < s.len() && s[i] != q {
        if s[i] == '\\' && i + 1 < s.len() && escape_of(s[i + 1]) is Some {
            lemma_quoted_end(s, i + 2, q);
        } else {
            lemma_quoted_end(s, i + 1, q);
        }
    }
}

/// Every step moves forward and stays within the text.
pub proof fn lemma_step_advances(s: Seq<char>, cls: Seq<CharClass>, p: int)
    requires
        0 <= p < s.len(),
    ensures
        p < step_end(step(s, cls, p)) <= s.len(),
{
    lemma_word_end(s, cls, p + 1);
    lemma_hex_end(s, p + 2);
    lemma_number_end(s, p + 1);
    lemma_line_end(s, p + 2);
    lemma_quoted_end(s, p + 1, '"');
    lemma_quoted_end(s, p + 1, '\'');
    let c = s[p];
    if !(c == '/' && next_is(s, p, '/')) && !(c == '\n' || cls[p].blank) && !(cls[p].letter
        || c == '_') && c != '"' && c != '\'' && is_digit(c) {
        assert(number_end(s, p) == number_end(s, p + 1));
    }
}

/// Where a span of the text lies.
pub open spec fn span_view(s: Seq<char>, name: Option<Seq<char>>, start: int, end: int) -> LocationView {
    LocationView {
        line: line_at(s, start),
        column: column_at(s, start),
        offset: offset_at(s, start),
        length: (end - start) as nat,
        filename: name,
    }
}

pub open spec fn lexeme_view(s: Seq<char>, name: Option<Seq<char>>, l: Lexeme) -> TokenView {
    TokenView { kind: l.kind, loc: span_view(s, name, l.start, l.end) }
}

/// The tokens of a whole text, located, or the first error; `cls` holds the classes
/// of each character.
pub open spec fn lex(s: Seq<char>, cls: Seq<CharClass>, name: Option<Seq<char>>) -> Result<
    Seq<TokenView>,
    LexErrorView,
> {
    match lex_from(s, cls, 0) {
        Ok(ls) => Ok(ls.map_values(|l: Lexeme| lexeme_view(s, name, l))),
        Err(f) => Err(LexErrorView { kind: f.kind, loc: span_view(s, name, f.start, f.end) }),
    }
}

} // verus!
