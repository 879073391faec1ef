//! Errors of the lexer and of the parser that reads its tokens.

use vstd::prelude::*;
use crate::location::{opt_text, rendered, LocationView, SourceCodeLocation};

verus! {

/// Kinds of errors met while tokenizing source code.
#[derive(Clone, Debug, PartialEq)]
pub enum LexErrorType {
    /// Encountered an invalid character.
    InvalidCharacter,
    /// Encountered an invalid character literal.
    InvalidCharacterLiteral,
    /// Encountered an invalid hexadecimal number literal.
    InvalidHexadecimalNumber,
    /// Encountered an invalid floating point number literal.
    InvalidFloatingPointNumber,
    /// Encountered an invalid whole number.
    InvalidInteger,
    /// Encountered an invalid string literal.
    InvalidString,
    /// Encountered an invalid token; holds the symbols that were expected.
    InvalidToken(Vec<&'static str>),
}

/// What a `LexErrorType` holds, with the expected symbols as characters.
pub enum ErrorKindView {
    InvalidCharacter,
    InvalidCharacterLiteral,
    InvalidHexadecimalNumber,
    InvalidFloatingPointNumber,
    InvalidInteger,
    InvalidString,
    InvalidToken(Seq<Seq<char>>),
}

/// The characters of each string of a list.
pub open spec fn texts_view(v: Seq<&'static str>) -> Seq<Seq<char>> {
    v.map_values(|w: &'static str| w@)
}

impl View for LexErrorType {
    type V = ErrorKindView;

    open spec fn view(&self) -> ErrorKindView {
        match *self {
            LexErrorType::InvalidCharacter => ErrorKindView::InvalidCharacter,
            LexErrorType::InvalidCharacterLiteral => ErrorKindView::InvalidCharacterLiteral,
            LexErrorType::InvalidHexadecimalNumber => ErrorKindView::InvalidHexadecimalNumber,
            LexErrorType::InvalidFloatingPointNumber => ErrorKindView::InvalidFloatingPointNumber,
            LexErrorType::InvalidInteger => ErrorKindView::InvalidInteger,
            LexErrorType::InvalidString => ErrorKindView::InvalidString,
            LexErrorType::InvalidToken(v) => ErrorKindView::InvalidToken(texts_view(v@)),
        }
    }
}

/// An error of the lexer: what went wrong, and where.
#[derive(Clone, Debug, PartialEq)]
pub struct LexError {
    kind: LexErrorType,
    loc: SourceCodeLocation,
}

pub struct LexErrorView {
    pub kind: ErrorKindView,
    pub loc: LocationView,
}

impl View for LexError {
    type V = LexErrorView;

    open spec fn view(&self) -> LexErrorView {
        LexErrorView { kind: self.spec_kind()@, loc: self.spec_loc()@ }
    }
}

impl LexError {
    pub closed spec fn spec_kind(&self) -> LexErrorType {
        self.kind
    }

    pub closed spec fn spec_loc(&self) -> SourceCodeLocation {
        self.loc
    }

    pub fn new(t: LexErrorType, loc: SourceCodeLocation) -> (r: Self)
        ensures
            r.spec_kind() == t,
            r.spec_loc() == loc,
    {
        LexError { kind: t, loc }
    }

    /// What went wrong.
    pub fn error_type(&self) -> (r: &LexErrorType)
        ensures
            *r == self.spec_kind(),
    {
        &self.kind
    }

    /// Where it went wrong.
    pub fn loc(&self) -> (r: &SourceCodeLocation)
        ensures
            *r == self.spec_loc(),
    {
        &self.loc
    }
}

/// Kinds of errors met while parsing tokens.
#[derive(Clone, Debug, PartialEq)]
pub enum ParseErrorType {
    /// Unexpected random token.
    InvalidToken(String),
    /// Expected some tokens, but got some other token.
    UnexpectedToken(Vec<&'static str>),
    /// Unexpected end of a block.
    UnexpectedEndOfBlock,
}

/// An error of the parser: what went wrong, and where.
#[derive(Clone, Debug, PartialEq)]
pub struct ParseError {
    kind: ParseErrorType,
    loc: SourceCodeLocation,
}

impl ParseError {
    pub closed spec fn spec_kind(&self) -> ParseErrorType {
        self.kind
    }

    pub closed spec fn spec_loc(&self) -> SourceCodeLocation {
        self.loc
    }

    pub fn new(t: ParseErrorType, loc: SourceCodeLocation) -> (r: Self)
        ensures
            r.spec_kind() == t,
            r.spec_loc() == loc,
    {
        ParseError { kind: t, loc }
    }

    /// What went wrong.
    pub fn error_type(&self) -> (r: &ParseErrorType)
        ensures
            *r == self.spec_kind(),
    {
        &self.kind
    }

    /// Where it went wrong.
    pub fn loc(&self) -> (r: &SourceCodeLocation)
        ensures
            *r == self.spec_loc(),
    {
        &self.loc
    }
}

/// The texts of a list joined, with `sep` between each two.
pub open spec fn joined(v: Seq<Seq<char>>, sep: Seq<char>) -> Seq<char>
    decreases v.len(),
{
    if v.len() == 0 {
        Seq::empty()
    } else if v.len() == 1 {
        v[0]
    } else {
        joined(v.drop_last(), sep) + sep + v.last()
    }
}

/// Appends the strings of `v`, with `sep` between each two.
fn push_joined(out: &mut String, v: &Vec<&'static str>, sep: &str)
    ensures
        final(out)@ == old(out)@ + joined(texts_view(v@), sep@),
{
    let mut i: usize = 0;
    while i < v.len()
        invariant
            i <= v@.len(),
            out@ == old(out)@ + joined(texts_view(v@.subrange(0, i as int)), sep@),
        decreases v@.len() - i,
    {
        let ghost before = out@;
        if i > 0 {
            out.append(sep);
        }
        out.append(v[i]);
        i += 1;
        proof {
            let t = texts_view(v@.subrange(0, i as int));
            assert(t.drop_last() =~= texts_view(v@.subrange(0, i - 1)));
            assert(t.last() == v@[i - 1]@);
            if i == 1 {
                assert(joined(texts_view(v@.subrange(0, 0)), sep@) =~= Seq::<char>::empty());
                assert(out@ =~= old(out)@ + joined(t, sep@));
            } else {
                assert(out@ =~= old(out)@ + joined(t, sep@));
            }
        }
    }
    proof {
        assert(v@.subrange(0, v@.len() as int) =~= v@);
    }
}

/// Error types that can be shown as a message against the source text.
pub trait GenerateErrorMessage {
    /// The message: the rendered location, then what went wrong. `None` if the
    /// location's line is not in the source.
    fn generate_error_message(self, source_code: &String) -> Option<String>;
}

/// What went wrong, in words, for a lexer error.
pub open spec fn lex_reason(k: ErrorKindView) -> Seq<char> {
    match k {
        ErrorKindView::InvalidCharacter => "Invalid character."@,
        ErrorKindView::InvalidCharacterLiteral => "Invalid character literal."@,
        ErrorKindView::InvalidHexadecimalNumber => "Invalid hexadecimal number literal."@,
        ErrorKindView::InvalidFloatingPointNumber => "Invalid float literal."@,
        ErrorKindView::InvalidInteger => "Invalid integer literal."@,
        ErrorKindView::InvalidString => "Invalid string literal."@,
        ErrorKindView::InvalidToken(v) => "Expected "@ + joined(v, ", "@),
    }
}

/// The full message of an error: its rendered location, a line, and the reason.
pub open spec fn message(loc: LocationView, source: Seq<char>, reason: Seq<char>) -> Option<
    Seq<char>,
> {
    match rendered(loc, source) {
        Some(t) => Some(t + "\nParse Error: "@ + reason),
        None => None,
    }
}

impl GenerateErrorMessage for LexError {
    fn generate_error_message(self, source_code: &String) -> (r: Option<String>)
        ensures
            opt_text(r) == message(self@.loc, source_code@, lex_reason(self@.kind)),
    {
        match self.loc.line_in_source_code(source_code) {
            None => None,
            Some(mut msg) => {
                msg.append("\nParse Error: ");
                match &self.kind {
                    LexErrorType::InvalidCharacter => msg.append("Invalid character."),
                    LexErrorType::InvalidCharacterLiteral => msg.append(
                        "Invalid character literal.",
                    ),
                    LexErrorType::InvalidHexadecimalNumber => msg.append(
                        "Invalid hexadecimal number literal.",
                    ),
                    LexErrorType::InvalidFloatingPointNumber => msg.append(
                        "Invalid float literal.",
                    ),
                    LexErrorType::InvalidInteger => msg.append("Invalid integer literal."),
                    LexErrorType::InvalidString => msg.append("Invalid string literal."),
                    LexErrorType::InvalidToken(expected) => {
                        msg.append("Expected ");
                        push_joined(&mut msg, expected, ", ");
                    },
                }
                Some(msg)
            },
        }
    }
}

/// What went wrong, in words, for a parser error.
pub open spec fn parse_reason(k: ParseErrorType) -> Seq<char> {
    match k {
        ParseErrorType::InvalidToken(t) => "Unexpected token: "@ + t@ + "."@,
        ParseErrorType::UnexpectedToken(v) => "Expected "@ + joined(texts_view(v@), " or "@)
            + "."@,
        ParseErrorType::UnexpectedEndOfBlock => "Unexpected end of input while parsing a block"@,
    }
}

impl GenerateErrorMessage for ParseError {
    fn generate_error_message(self, source_code: &String) -> (r: Option<String>)
        ensures
            opt_text(r) == message(self.spec_loc()@, source_code@, parse_reason(self.spec_kind())),
    {
        match self.loc.line_in_source_code(source_code) {
            None => None,
            Some(mut msg) => {
                msg.append("\nParse Error: ");
                match &self.kind {
                    ParseErrorType::InvalidToken(token) => {
                        msg.append("Unexpected token: ");
                        msg.append(token.as_str());
                        msg.append(".");
                    },
                    ParseErrorType::UnexpectedToken(expected) => {
                        msg.append("Expected ");
                        push_joined(&mut msg, expected, " or ");
                        msg.append(".");
                    },
                    ParseErrorType::UnexpectedEndOfBlock => msg.append(
                        "Unexpected end of input while parsing a block",
                    ),
                }
                Some(msg)
            },
        }
    }
}

} // verus!
