//! Tokens, their kinds, and the reserved words of the language.

use vstd::prelude::*;
use crate::location::{LocationView, SourceCodeLocation};
use crate::text::spells;

verus! {

/// Reserved words.
#[derive(Clone, Copy, Debug, PartialEq, Eq, Structural)]
pub enum Keyword {
    If,
    Else,
    Match,
    Def,
    Let,
    Str,
    Int,
    Float,
    Struct,
    Enum,
    Impl,
    For,
    While,
    LilSelf,
    BigSelf,
    Break,
    Return,
    Continue,
    Methods,
    Import,
    Export,
    True,
    False,
}

/// The spelling of each reserved word.
pub open spec fn keyword_text(k: Keyword) -> Seq<char> {
    match k {
        Keyword::If => "if"@,
        Keyword::Else => "else"@,
        Keyword::Match => "match"@,
        Keyword::Def => "def"@,
        Keyword::Let => "let"@,
        Keyword::Str => "str"@,
        Keyword::Int => "int"@,
        Keyword::Float => "float"@,
        Keyword::Struct => "struct"@,
        Keyword::Enum => "enum"@,
        Keyword::Impl => "impl"@,
        Keyword::For => "for"@,
        Keyword::While => "while"@,
        Keyword::LilSelf => "self"@,
        Keyword::BigSelf => "Self"@,
        Keyword::Break => "break"@,
        Keyword::Return => "return"@,
        Keyword::Continue => "continue"@,
        Keyword::Methods => "methods"@,
        Keyword::Import => "import"@,
        Keyword::Export => "export"@,
        Keyword::True => "true"@,
        Keyword::False => "false"@,
    }
}

/// The reserved word a text spells exactly, if any.
pub open spec fn keyword_of(t: Seq<char>) -> Option<Keyword> {
    if exists|k: Keyword| keyword_text(k) == t {
        Some(choose|k: Keyword| keyword_text(k) == t)
    } else {
        None
    }
}

/// Distinct reserved words are spelled differently.
pub proof fn lemma_keyword_text_injective(a: Keyword, b: Keyword)
    ensures
        keyword_text(a) == keyword_text(b) ==> a == b,
{
    reveal_strlit("if");
    reveal_strlit("else");
    reveal_strlit("match");
    reveal_strlit("def");
    reveal_strlit("let");
    reveal_strlit("str");
    reveal_strlit("int");
    reveal_strlit("float");
    reveal_strlit("struct");
    reveal_strlit("enum");
    reveal_strlit("impl");
    reveal_strlit("for");
    reveal_strlit("while");
    reveal_strlit("self");
    reveal_strlit("Self");
    reveal_strlit("break");
    reveal_strlit("return");
    reveal_strlit("continue");
    reveal_strlit("methods");
    reveal_strlit("import");
    reveal_strlit("export");
    reveal_strlit("true");
    reveal_strlit("false");
    if keyword_text(a) == keyword_text(b) {
        let ta = keyword_text(a);
        let tb = keyword_text(b);
        assert(ta.len() == tb.len());
        assert(ta[0] == tb[0]);
        assert(ta[ta.len() - 1] == tb[tb.len() - 1]);
        assert(ta.len() > 1 ==> ta[1] == tb[1]);
        assert(ta.len() > 2 ==> ta[2] == tb[2]);
    }
}

impl Keyword {
    /// The reserved word that `w` spells exactly, matching case; `None` for any
    /// other text, including a prefix or an extension of a reserved word.
    pub fn from_word(w: &[char]) -> (r: Option<Keyword>)
        ensures
            r == keyword_of(w@),
            r matches Some(k) ==> keyword_text(k) == w@,
    {
        let r = if spells(w, "if") {
            Some(Keyword::If)
        } else if spells(w, "else") {
            Some(Keyword::Else)
        } else if spells(w, "match") {
            Some(Keyword::Match)
        } else if spells(w, "def") {
            Some(Keyword::Def)
        } else if spells(w, "let") {
            Some(Keyword::Let)
        } else if spells(w, "str") {
            Some(Keyword::Str)
        } else if spells(w, "int") {
            Some(Keyword::Int)
        } else if spells(w, "float") {
            Some(Keyword::Float)
        } else if spells(w, "struct") {
            Some(Keyword::Struct)
        } else if spells(w, "enum") {
            Some(Keyword::Enum)
        } else if spells(w, "impl") {
            Some(Keyword::Impl)
        } else if spells(w, "for") {
            Some(Keyword::For)
        } else if spells(w, "while") {
            Some(Keyword::While)
        } else if spells(w, "self") {
            Some(Keyword::LilSelf)
        } else if spells(w, "Self") {
            Some(Keyword::BigSelf)
        } else if spells(w, "break") {
            Some(Keyword::Break)
        } else if spells(w, "return") {
            Some(Keyword::Return)
        } else if spells(w, "continue") {
            Some(Keyword::Continue)
        } else if spells(w, "methods") {
            Some(Keyword::Methods)
        } else if spells(w, "import") {
            Some(Keyword::Import)
        } else if spells(w, "export") {
            Some(Keyword::Export)
        } else if spells(w, "true") {
            Some(Keyword::True)
        } else if spells(w, "false") {
            Some(Keyword::False)
        } else {
            None
        };
        proof {
            match r {
                Some(k) => {
                    assert(keyword_text(k) == w@);
                    let c = choose|c: Keyword| keyword_text(c) == w@;
                    lemma_keyword_text_injective(k, c);
                },
                None => {
                    assert forall|k: Keyword| keyword_text(k) != w@ by {
                        match k {
                            _ => {},
                        }
                    }
                },
            }
        }
        r
    }
}

/// Kinds of tokens.
#[derive(Clone, Debug, PartialEq)]
pub enum TokenKind {
    /// An identifier
    Ident(String),
    /// A string literal, with its escapes decoded
    Str(String),
    /// A character literal, with its escape decoded
    Char(char),
    /// An integer literal
    Int(i64),
    /// A floating point literal, as written: digits, a point, and digits
    Float(String),
    /// (
    LeftParen,
    /// )
    RightParen,
    /// {
    LeftBrace,
    /// }
    RightBrace,
    /// [
    LeftBracket,
    /// ]
    RightBracket,
    /// \
    BackSlash,
    /// +
    Plus,
    /// +=
    PlusEq,
    /// -
    Minus,
    /// -=
    MinusEq,
    /// ->
    MinusGreaterThan,
    /// *
    Mul,
    /// *=
    MulEq,
    /// /
    Div,
    /// /=
    DivEq,
    /// %
    Rem,
    /// %=
    RemEq,
    /// ,
    Comma,
    /// ||
    DoubleVertical,
    /// &&
    DoubleAmp,
    /// >
    GreaterThan,
    /// <
    LessThan,
    /// >=
    GreaterThanOrEq,
    /// <=
    LessThanOrEq,
    /// !
    Bang,
    /// !=
    BangEq,
    /// =
    Eq,
    /// ==
    DoubleEq,
    /// .
    Dot,
    /// =>
    EqGreaterThan,
    /// ::
    DoubleColon,
    /// :
    Colon,
    /// ;
    SemiColon,
    /// A reserved word
    Keyword(Keyword),
}

/// What a token kind holds, with text as characters. A kind that holds nothing is
/// its own view.
pub enum KindView {
    Ident(Seq<char>),
    Str(Seq<char>),
    Char(char),
    Int(i64),
    Float(Seq<char>),
    Keyword(Keyword),
    Symbol(TokenKind),
}

impl View for TokenKind {
    type V = KindView;

    open spec fn view(&self) -> KindView {
        match *self {
            TokenKind::Ident(s) => KindView::Ident(s@),
            TokenKind::Str(s) => KindView::Str(s@),
            TokenKind::Char(c) => KindView::Char(c),
            TokenKind::Int(i) => KindView::Int(i),
            TokenKind::Float(s) => KindView::Float(s@),
            TokenKind::Keyword(k) => KindView::Keyword(k),
            _ => KindView::Symbol(*self),
        }
    }
}

/// A token: its kind and the span of source it was read from.
#[derive(Clone, Debug, PartialEq)]
pub struct Token {
    pub kind: TokenKind,
    pub loc: SourceCodeLocation,
}

pub struct TokenView {
    pub kind: KindView,
    pub loc: LocationView,
}

impl View for Token {
    type V = TokenView;

    open spec fn view(&self) -> TokenView {
        TokenView { kind: self.kind@, loc: self.loc@ }
    }
}

impl Token {
    pub fn new(kind: TokenKind, loc: SourceCodeLocation) -> (r: Self)
        ensures
            r.kind == kind,
            r.loc == loc,
    {
        Token { kind, loc }
    }
}

} // verus!
