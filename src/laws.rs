//! Properties of the lexer as a whole, proved from the grammar.

use vstd::prelude::*;
use crate::error::LexError;
use crate::cursor::{column_at, line_at, offset_at};
use crate::grammar::{
    lemma_line_end, lemma_step_advances, lex, lex_from, lexeme_view, line_end, next_is, span_view, step,
    word_end, Failure, Lexeme, Step,
};
use crate::lexer::result_view;
use crate::text::{is_word_char, CharClass};
use crate::token::{keyword_of, keyword_text, Keyword, KindView, Token, TokenView};

verus! {

/// Whether the text from `p` on is only comments and blank characters (line feeds,
/// and characters whose classes `cls` mark as white space).
pub open spec fn blank_from(s: Seq<char>, cls: Seq<CharClass>, p: int) -> bool
    decreases s.len() - p,
    via blank_from_decreases
{
    if p < 0 || p >= s.len() {
        true
    } else if s[p] == '/' && next_is(s, p, '/') {
        blank_from(s, cls, line_end(s, p + 2))
    } else if s[p] == '\n' || cls[p].blank {
        blank_from(s, cls, p + 1)
    } else {
        false
    }
}

#[via_fn]
proof fn blank_from_decreases(s: Seq<char>, cls: Seq<CharClass>, p: int) {
    lemma_line_end(s, p + 2);
}

proof fn lemma_blank_lexes_to_nothing(s: Seq<char>, cls: Seq<CharClass>, p: int)
    requires
        0 <= p,
        blank_from(s, cls, p),
    ensures
        lex_from(s, cls, p) == Ok::<Seq<Lexeme>, Failure>(Seq::empty()),
    decreases s.len() - p,
{
    if p < s.len() {
        if s[p] == '/' && next_is(s, p, '/') {
            lemma_line_end(s, p + 2);
            lemma_blank_lexes_to_nothing(s, cls, line_end(s, p + 2));
        } else {
            lemma_blank_lexes_to_nothing(s, cls, p + 1);
        }
    }
}

/// A text made only of comments and white space has no tokens.
pub proof fn blank_text_has_no_tokens(s: Seq<char>, cls: Seq<CharClass>, name: Option<Seq<char>>)
    requires
        blank_from(s, cls, 0),
    ensures
        lex(s, cls, name) == Ok::<Seq<TokenView>, crate::error::LexErrorView>(Seq::empty()),
{
    lemma_blank_lexes_to_nothing(s, cls, 0);
    assert(Seq::<Lexeme>::empty().map_values(|l: Lexeme| crate::grammar::lexeme_view(s, name, l))
        =~= Seq::<TokenView>::empty());
}

/// Each reserved word is read as itself, and only its exact spelling is.
pub proof fn keywords_read_exactly(k: Keyword, t: Seq<char>)
    ensures
        keyword_of(keyword_text(k)) == Some(k),
        keyword_of(t) == Some(k) <==> t == keyword_text(k),
{
    let c = choose|c: Keyword| keyword_text(c) == keyword_text(k);
    crate::token::lemma_keyword_text_injective(c, k);
    if keyword_of(t) == Some(k) {
        let d = choose|d: Keyword| keyword_text(d) == t;
        assert(keyword_text(d) == t);
    }
}

proof fn lemma_word_end_whole(t: Seq<char>, cls: Seq<CharClass>, i: int)
    requires
        0 <= i <= t.len(),
        forall|j: int| 0 <= j < t.len() ==> #[trigger] is_word_char(t, cls, j),
    ensures
        word_end(t, cls, i) == t.len(),
    decreases t.len() - i,
{
    if i < t.len() {
        lemma_word_end_whole(t, cls, i + 1);
    }
}

/// A text that is one identifier, and no reserved word, is read as one identifier
/// token holding exactly that text, at line 1, column 1. Its first character is a
/// letter or an underscore, so neither white space, a line feed nor a slash; each
/// other one is a letter, a numeral or an underscore.
pub proof fn identifier_reads_as_itself(t: Seq<char>, cls: Seq<CharClass>, name: Option<Seq<char>>)
    requires
        t.len() > 0,
        cls.len() == t.len(),
        cls[0].letter || t[0] == '_',
        !cls[0].blank && t[0] != '/' && t[0] != '\n',
        forall|j: int| 0 <= j < t.len() ==> #[trigger] is_word_char(t, cls, j),
        keyword_of(t) is None,
    ensures
        lex(t, cls, name) == Ok::<Seq<TokenView>, crate::error::LexErrorView>(
            seq![TokenView { kind: KindView::Ident(t), loc: span_view(t, name, 0, t.len() as int) }],
        ),
{
    lemma_word_end_whole(t, cls, 1);
    assert(t.subrange(0, t.len() as int) =~= t);
    assert(lex_from(t, cls, t.len() as int) == Ok::<Seq<Lexeme>, Failure>(
        Seq::empty(),
    ));
    let l = Lexeme { kind: KindView::Ident(t), start: 0, end: t.len() as int };
    assert(lex_from(t, cls, 0) == Ok::<Seq<Lexeme>, Failure>(seq![l]));
    assert(seq![l] + Seq::<Lexeme>::empty() =~= seq![l]);
    assert(seq![l].map_values(|l: Lexeme| crate::grammar::lexeme_view(t, name, l)) =~= seq![
        TokenView { kind: KindView::Ident(t), loc: span_view(t, name, 0, t.len() as int) },
    ]);
}

/// Tokenizing depends on the source text and its name alone: two runs on the same
/// input give the same tokens, or the same error.
pub proof fn tokenize_is_deterministic(
    s: Seq<char>,
    cls: Seq<CharClass>,
    name: Option<Seq<char>>,
    r1: Result<Vec<Token>, LexError>,
    r2: Result<Vec<Token>, LexError>,
)
    requires
        result_view(r1) == lex(s, cls, name),
        result_view(r2) == lex(s, cls, name),
    ensures
        result_view(r1) == result_view(r2),
{
}

/// The spans of the tokens read from `p` on lie after `p`, are not empty, and come
/// in the order of the text without overlapping.
proof fn lemma_spans_ordered(s: Seq<char>, cls: Seq<CharClass>, p: int)
    requires
        0 <= p,
    ensures
        lex_from(s, cls, p) matches Ok(ls) ==> (forall|i: int|
            0 <= i < ls.len() ==> p <= #[trigger] ls[i].start < ls[i].end <= s.len()) && (forall|
            i: int,
            j: int,
        | 0 <= i < j < ls.len() ==> #[trigger] ls[i].end <= #[trigger] ls[j].start),
    decreases s.len() - p,
{
    if p < s.len() {
        lemma_step_advances(s, cls, p);
        match step(s, cls, p) {
            Step::Skip(e) => {
                lemma_spans_ordered(s, cls, e);
            },
            Step::Emit(k, e) => {
                lemma_spans_ordered(s, cls, e);
                if let Ok(rest) = lex_from(s, cls, e) {
                    let l = Lexeme { kind: k, start: p, end: e };
                    let ls = seq![l] + rest;
                    assert forall|i: int| 0 < i < ls.len() implies ls[i] == rest[i - 1] by {}
                    assert forall|i: int, j: int| 0 <= i < j < ls.len() implies #[trigger] ls[i].end
                        <= #[trigger] ls[j].start by {
                        if i > 0 {
                            assert(ls[i] == rest[i - 1]);
                        }
                        assert(ls[j] == rest[j - 1]);
                    }
                }
            },
            Step::Fail(_, _) => {},
        }
    }
}

/// Positions further on in a text lie further on: on a later line, or on the same
/// line at a later column; and at a larger byte offset.
proof fn lemma_positions_increase(s: Seq<char>, p: int, q: int)
    requires
        0 <= p < q <= s.len(),
    ensures
        line_at(s, p) < line_at(s, q) || (line_at(s, p) == line_at(s, q) && column_at(s, p)
            < column_at(s, q)),
        offset_at(s, p) < offset_at(s, q),
    decreases q - p,
{
    if p < q - 1 {
        lemma_positions_increase(s, p, q - 1);
    }
}

/// The tokens of a text come in the order of the text: each one starts on a later
/// line than the one before it, or on the same line at a later column, and at a
/// larger byte offset.
pub proof fn token_locations_increase(s: Seq<char>, cls: Seq<CharClass>, name: Option<Seq<char>>)
    ensures
        lex(s, cls, name) matches Ok(ts) ==> forall|i: int, j: int|
            0 <= i < j < ts.len() ==> {
                let (a, b) = (#[trigger] ts[i].loc, #[trigger] ts[j].loc);
                &&& a.line < b.line || (a.line == b.line && a.column < b.column)
                &&& a.offset < b.offset
            },
{
    lemma_spans_ordered(s, cls, 0);
    if let Ok(ls) = lex_from(s, cls, 0) {
        let ts = ls.map_values(|l: Lexeme| lexeme_view(s, name, l));
        assert forall|i: int, j: int| 0 <= i < j < ts.len() implies {
            let (a, b) = (#[trigger] ts[i].loc, #[trigger] ts[j].loc);
            &&& a.line < b.line || (a.line == b.line && a.column < b.column)
            &&& a.offset < b.offset
        } by {
            assert(ls[i].end <= ls[j].start);
            assert(ls[i].start < ls[i].end);
            lemma_positions_increase(s, ls[i].start, ls[j].start);
        }
    }
}

} // verus!
