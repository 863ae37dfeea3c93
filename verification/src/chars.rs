//! Character classes the lexer relies on.

use vstd::prelude::*;

verus! {

/// Whether `c`, a character beyond ASCII, has the Unicode `Alphabetic`
/// property (`char::is_alphabetic`).
pub uninterp spec fn unicode_alphabetic(c: char) -> bool;

/// Whether `c`, a character beyond ASCII, is alphabetic or numeric in Unicode
/// (`char::is_alphanumeric`).
pub uninterp spec fn unicode_alphanumeric(c: char) -> bool;

/// Whether `c` is an ASCII character.
pub open spec fn is_ascii(c: char) -> bool {
    (c as u32) < 128
}

/// The characters with the Unicode `White_Space` property: the space, tab
/// through carriage return, next line, no-break space, Ogham space mark, the
/// spaces from en quad through hair space, the line and paragraph separators,
/// the narrow no-break space, the medium mathematical space and the
/// ideographic space.
pub open spec fn whitespace(c: char) -> bool {
    ||| c == ' '
    ||| ('\t' <= c && c <= '\r')
    ||| c == '\u{85}'
    ||| c == '\u{A0}'
    ||| c == '\u{1680}'
    ||| ('\u{2000}' <= c && c <= '\u{200A}')
    ||| c == '\u{2028}'
    ||| c == '\u{2029}'
    ||| c == '\u{202F}'
    ||| c == '\u{205F}'
    ||| c == '\u{3000}'
}

/// Unicode alphabetic: in ASCII the letters `a-z` and `A-Z`.
pub open spec fn alphabetic(c: char) -> bool {
    if is_ascii(c) {
        ('a' <= c && c <= 'z') || ('A' <= c && c <= 'Z')
    } else {
        unicode_alphabetic(c)
    }
}

/// Unicode alphabetic or numeric: in ASCII the letters and the digits `0-9`.
pub open spec fn alphanumeric(c: char) -> bool {
    if is_ascii(c) {
        ('a' <= c && c <= 'z') || ('A' <= c && c <= 'Z') || ('0' <= c && c <= '9')
    } else {
        unicode_alphanumeric(c)
    }
}

/// Whether `c` has the Unicode `White_Space` property, as
/// `char::is_whitespace` decides.
pub(crate) fn is_whitespace(c: char) -> (r: bool)
    ensures
        r == whitespace(c),
{
    c == ' ' || ('\t' <= c && c <= '\r') || c == '\u{85}' || c == '\u{A0}' || c == '\u{1680}'
        || ('\u{2000}' <= c && c <= '\u{200A}') || c == '\u{2028}' || c == '\u{2029}'
        || c == '\u{202F}' || c == '\u{205F}' || c == '\u{3000}'
}

/// `char::is_alphabetic`: whether `c` has the Unicode `Alphabetic` property.
/// The contract states the ASCII members (`a-z`, `A-Z`) and names the result
/// for every other character (`unicode_alphabetic`); the Unicode table is not
/// restated.
#[verifier::external_body]
pub(crate) fn is_alphabetic(c: char) -> (r: bool)
    ensures
        r == (if (c as u32) < 128 {
            ('a' <= c && c <= 'z') || ('A' <= c && c <= 'Z')
        } else {
            unicode_alphabetic(c)
        }),
{
    c.is_alphabetic()
}

/// `char::is_alphanumeric`: whether `c` is alphabetic or numeric in Unicode.
/// The contract states the ASCII members (`a-z`, `A-Z`, `0-9`) and names the
/// result for every other character (`unicode_alphanumeric`); the Unicode
/// tables are not restated.
#[verifier::external_body]
pub(crate) fn is_alphanumeric(c: char) -> (r: bool)
    ensures
        r == (if (c as u32) < 128 {
            ('a' <= c && c <= 'z') || ('A' <= c && c <= 'Z') || ('0' <= c && c <= '9')
        } else {
            unicode_alphanumeric(c)
        }),
{
    c.is_alphanumeric()
}

/// A character that may begin an identifier.
pub open spec fn ident_start(c: char) -> bool {
    c == '_' || alphabetic(c)
}

/// A character that may continue an identifier.
pub open spec fn ident_continue(c: char) -> bool {
    c == '_' || alphanumeric(c)
}

/// `0` to `9`.
pub open spec fn ascii_digit(c: char) -> bool {
    '0' <= c <= '9'
}

/// The value of `c` as a digit in bases up to 36 (`0-9`, then `a-z` or `A-Z`
/// from 10), or 36 when `c` is no such digit.
pub open spec fn digit_value(c: char) -> nat {
    if '0' <= c <= '9' {
        (c as u32 - '0' as u32) as nat
    } else if 'a' <= c <= 'z' {
        (c as u32 - 'a' as u32 + 10) as nat
    } else if 'A' <= c <= 'Z' {
        (c as u32 - 'A' as u32 + 10) as nat
    } else {
        36
    }
}

/// Whether `c` is a digit in `radix` (what `char::is_digit` decides).
pub open spec fn radix_digit(c: char, radix: nat) -> bool {
    digit_value(c) < radix
}

/// A hexadecimal digit, either case.
pub open spec fn hex_digit(c: char) -> bool {
    radix_digit(c, 16)
}

pub fn is_ident_start(c: char) -> (r: bool)
    ensures
        r == ident_start(c),
{
    c == '_' || is_alphabetic(c)
}

pub fn is_ident_continue(c: char) -> (r: bool)
    ensures
        r == ident_continue(c),
{
    c == '_' || is_alphanumeric(c)
}

pub fn is_ascii_digit(c: char) -> (r: bool)
    ensures
        r == ascii_digit(c),
{
    '0' <= c && c <= '9'
}

/// The digit value of `c`, as `digit_value` defines it.
pub fn digit_value_of(c: char) -> (r: u32)
    ensures
        r == digit_value(c),
        r <= 36,
{
    if '0' <= c && c <= '9' {
        c as u32 - '0' as u32
    } else if 'a' <= c && c <= 'z' {
        c as u32 - 'a' as u32 + 10
    } else if 'A' <= c && c <= 'Z' {
        c as u32 - 'A' as u32 + 10
    } else {
        36
    }
}

pub fn is_radix_digit(c: char, radix: u32) -> (r: bool)
    ensures
        r == radix_digit(c, radix as nat),
{
    digit_value_of(c) < radix
}

} // verus!
