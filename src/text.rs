//! Character classes and small text helpers shared by the scanners and the renderer.

use vstd::prelude::*;

verus! {

/// Whether a character has Unicode's `Alphabetic` property.
pub uninterp spec fn alphabetic(c: char) -> bool;

/// Whether a character is numeric in Unicode's sense (general categories Nd, Nl, No).
pub uninterp spec fn numeric(c: char) -> bool;

/// Whether a character has Unicode's `White_Space` property.
pub uninterp spec fn whitespace(c: char) -> bool;

/// Relies on `char::is_alphabetic`, whose answer depends on the character alone.
#[verifier::external_body]
pub(crate) fn is_alphabetic(c: char) -> (r: bool)
    ensures
        r == alphabetic(c),
{
    c.is_alphabetic()
}

/// Relies on `char::is_numeric`, whose answer depends on the character alone.
#[verifier::external_body]
pub(crate) fn is_numeric(c: char) -> (r: bool)
    ensures
        r == numeric(c),
{
    c.is_numeric()
}

/// Relies on `char::is_whitespace`, whose answer depends on the character alone.
#[verifier::external_body]
pub(crate) fn is_whitespace(c: char) -> (r: bool)
    ensures
        r == whitespace(c),
{
    c.is_whitespace()
}

/// Relies on `String::push`: appends one character.
#[verifier::external_body]
pub(crate) fn push_char(s: &mut String, c: char)
    ensures
        final(s)@ == old(s)@.push(c),
{
    s.push(c)
}

pub open spec fn is_digit(c: char) -> bool {
    '0' <= c && c <= '9'
}

pub open spec fn is_hex_digit(c: char) -> bool {
    ('0' <= c && c <= '9') || ('a' <= c && c <= 'f') || ('A' <= c && c <= 'F')
}

/// The value of a hexadecimal digit.
pub open spec fn hex_digit_value(c: char) -> nat {
    if '0' <= c && c <= '9' {
        (c as nat - '0' as nat) as nat
    } else if 'a' <= c && c <= 'f' {
        (c as nat - 'a' as nat + 10) as nat
    } else {
        (c as nat - 'A' as nat + 10) as nat
    }
}

/// The Unicode classes of a character that the lexer reads.
#[derive(Clone, Copy, Debug, PartialEq, Eq, Structural)]
pub struct CharClass {
    /// The character is alphabetic.
    pub letter: bool,
    /// The character is numeric.
    pub numeral: bool,
    /// The character is white space.
    pub blank: bool,
}

/// The classes Unicode gives a character.
pub open spec fn class_of(c: char) -> CharClass {
    CharClass { letter: alphabetic(c), numeral: numeric(c), blank: whitespace(c) }
}

/// The classes of a character.
pub fn classify(c: char) -> (r: CharClass)
    ensures
        r == class_of(c),
{
    CharClass { letter: is_alphabetic(c), numeral: is_numeric(c), blank: is_whitespace(c) }
}

/// The classes of each character of a text.
pub fn classify_all(chars: &Vec<char>) -> (r: Vec<CharClass>)
    ensures
        r@ == chars@.map_values(|c: char| class_of(c)),
{
    let mut v: Vec<CharClass> = Vec::new();
    let mut i: usize = 0;
    while i < chars.len()
        invariant
            i <= chars@.len(),
            v@ == chars@.subrange(0, i as int).map_values(|c: char| class_of(c)),
        decreases chars@.len() - i,
    {
        v.push(classify(chars[i]));
        i += 1;
        proof {
            assert(v@ =~= chars@.subrange(0, i as int).map_values(|c: char| class_of(c)));
        }
    }
    proof {
        assert(chars@.subrange(0, chars@.len() as int) =~= chars@);
    }
    v
}

/// Whether character `i` of `s`, of classes `cls[i]`, may continue an identifier.
pub open spec fn is_word_char(s: Seq<char>, cls: Seq<CharClass>, i: int) -> bool {
    cls[i].letter || cls[i].numeral || s[i] == '_'
}

pub fn digit(c: char) -> (r: bool)
    ensures
        r == is_digit(c),
{
    '0' <= c && c <= '9'
}

pub fn hex_digit(c: char) -> (r: bool)
    ensures
        r == is_hex_digit(c),
{
    ('0' <= c && c <= '9') || ('a' <= c && c <= 'f') || ('A' <= c && c <= 'F')
}

pub fn hex_value(c: char) -> (r: u64)
    requires
        is_hex_digit(c),
    ensures
        r == hex_digit_value(c),
        r < 16,
{
    if '0' <= c && c <= '9' {
        (c as u64) - ('0' as u64)
    } else if 'a' <= c && c <= 'f' {
        (c as u64) - ('a' as u64) + 10
    } else {
        (c as u64) - ('A' as u64) + 10
    }
}

/// The characters of a string, in order.
pub fn chars_of(s: &str) -> (r: Vec<char>)
    ensures
        r@ == s@,
{
    let n = s.unicode_len();
    let mut v: Vec<char> = Vec::new();
    let mut i: usize = 0;
    while i < n
        invariant
            n == s@.len(),
            i <= n,
            v@ == s@.subrange(0, i as int),
        decreases n - i,
    {
        v.push(s.get_char(i));
        i += 1;
    }
    proof {
        assert(v@ =~= s@);
    }
    v
}

/// A string holding the given characters.
pub fn string_of(v: &[char]) -> (r: String)
    ensures
        r@ == v@,
{
    let mut s = String::new();
    let mut i: usize = 0;
    while i < v.len()
        invariant
            i <= v@.len(),
            s@ == v@.subrange(0, i as int),
        decreases v@.len() - i,
    {
        push_char(&mut s, v[i]);
        i += 1;
        proof {
            assert(s@ =~= v@.subrange(0, i as int));
        }
    }
    proof {
        assert(s@ =~= v@);
    }
    s
}

/// Whether a character sequence spells out the given string.
pub fn spells(v: &[char], w: &str) -> (r: bool)
    ensures
        r == (v@ == w@),
{
    let n = w.unicode_len();
    if v.len() != n {
        return false;
    }
    let mut i: usize = 0;
    while i < n
        invariant
            n == w@.len(),
            n == v@.len(),
            i <= n,
            v@.subrange(0, i as int) == w@.subrange(0, i as int),
        decreases n - i,
    {
        if v[i] != w.get_char(i) {
            return false;
        }
        i += 1;
        proof {
            assert(v@.subrange(0, i as int) =~= w@.subrange(0, i as int));
        }
    }
    proof {
        assert(v@ =~= v@.subrange(0, n as int));
        assert(w@ =~= w@.subrange(0, n as int));
    }
    true
}

/// The decimal digit character for a value below ten.
pub open spec fn digit_char(d: nat) -> char {
    ((d + 48) as u8) as char
}

/// The decimal numeral of a natural number, without leading zeros.
pub open spec fn decimal(n: nat) -> Seq<char>
    decreases n,
{
    if n < 10 {
        seq![digit_char(n)]
    } else {
        decimal(n / 10).push(digit_char(n % 10))
    }
}

/// Appends the decimal numeral of `n`.
pub fn push_decimal(s: &mut String, n: usize)
    ensures
        final(s)@ == old(s)@ + decimal(n as nat),
    decreases n,
{
    if n >= 10 {
        push_decimal(s, n / 10);
    }
    let d: u8 = (n % 10) as u8 + 48;
    push_char(s, d as char);
    proof {
        if n >= 10 {
            assert(final(s)@ =~= old(s)@ + decimal(n as nat));
        } else {
            assert(final(s)@ =~= old(s)@ + decimal(n as nat));
        }
    }
}

} // verus!
