//! Unicode character classes used by the tokenizer, taken from `char`'s methods.
use vstd::prelude::*;

verus! {

/// Whether `c` is in one of Unicode's number categories (`char::is_numeric`).
pub uninterp spec fn is_numeric_char(c: char) -> bool;

/// Whether `c` is alphabetic or numeric in Unicode (`char::is_alphanumeric`).
pub uninterp spec fn is_alphanumeric_char(c: char) -> bool;

/// Whether `c` has Unicode's `White_Space` property: tab, line feed,
/// vertical tab, form feed, carriage return, space, next line, no-break
/// space, ogham space mark, the spaces U+2000 to U+200A, line and paragraph
/// separators, narrow no-break space, medium mathematical space and
/// ideographic space. Opaque, so that lexing proofs do not unfold it;
/// `reveal(is_whitespace_char)` gives the list.
#[verifier::opaque]
pub open spec fn is_whitespace_char(c: char) -> bool {
    let v = c as u32;
    ||| 0x09 <= v <= 0x0D
    ||| v == 0x20
    ||| v == 0x85
    ||| v == 0xA0
    ||| v == 0x1680
    ||| 0x2000 <= v <= 0x200A
    ||| v == 0x2028
    ||| v == 0x2029
    ||| v == 0x202F
    ||| v == 0x205F
    ||| v == 0x3000
}

/// An ASCII decimal digit.
pub open spec fn is_ascii_digit(c: char) -> bool {
    '0' <= c <= '9'
}

/// An ASCII letter.
pub open spec fn is_ascii_letter(c: char) -> bool {
    ('a' <= c <= 'z') || ('A' <= c <= 'Z')
}

/// A character below U+0080.
pub open spec fn is_ascii_char(c: char) -> bool {
    (c as u32) < 128
}

/// `char::is_numeric`. Claims that the result is the Unicode number-category
/// test, which among ASCII characters holds exactly of the decimal digits.
#[verifier::external_body]
pub(crate) fn char_is_numeric(c: char) -> (r: bool)
    ensures
        r == is_numeric_char(c),
        is_ascii_char(c) ==> (r <==> is_ascii_digit(c)),
{
    c.is_numeric()
}

/// `char::is_alphanumeric`. Claims that the result is the Unicode
/// alphanumeric test, which among ASCII characters holds exactly of letters and digits.
#[verifier::external_body]
pub(crate) fn char_is_alphanumeric(c: char) -> (r: bool)
    ensures
        r == is_alphanumeric_char(c),
        is_ascii_char(c) ==> (r <==> (is_ascii_digit(c) || is_ascii_letter(c))),
{
    c.is_alphanumeric()
}

/// `char::is_whitespace`. Claims that the result is the Unicode `White_Space`
/// property, which holds of exactly the characters `is_whitespace_char` lists.
#[verifier::external_body]
pub(crate) fn char_is_whitespace(c: char) -> (r: bool)
    ensures
        r == is_whitespace_char(c),
{
    c.is_whitespace()
}

/// ASCII lower-case of a character; others are unchanged.
pub open spec fn ascii_lower(c: char) -> char {
    if 'A' <= c <= 'Z' {
        ((c as u32) + 32) as char
    } else {
        c
    }
}

/// Lower-cases an ASCII letter.
pub fn to_ascii_lowercase(c: char) -> (r: char)
    ensures
        r == ascii_lower(c),
{
    if 'A' <= c && c <= 'Z' {
        let v: u32 = (c as u32) + 32;
        proof {
            assert('a' as u32 <= v <= 'z' as u32);
        }
        char_from_ascii(v)
    } else {
        c
    }
}

/// The character with the given code below 128.
fn char_from_ascii(v: u32) -> (r: char)
    requires
        v < 128,
    ensures
        r == v as char,
{
    let b: u8 = v as u8;
    b as char
}

/// Among ASCII characters, exactly tab, line feed, vertical tab, form feed,
/// carriage return and space are whitespace.
pub proof fn lemma_ascii_whitespace(c: char)
    requires
        is_ascii_char(c),
    ensures
        is_whitespace_char(c) <==> (c == ' ' || (0x09 <= c as u32 <= 0x0D)),
{
    reveal(is_whitespace_char);
}

} // verus!
