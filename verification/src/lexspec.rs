//! What the lexer produces, stated as functions over the source characters.
//!
//! Positions here are character indices into the source; spans convert them to
//! byte offsets with `byte_offset`.

use vstd::prelude::*;
use crate::chars::{ascii_digit, digit_value, hex_digit, ident_continue, ident_start, radix_digit, whitespace};
use crate::error::{LexError, LexErrorKind};
use crate::span::Span;
use crate::text::byte_offset;
use crate::token::{KindView, TokenKind, TokenView, keyword_of};

verus! {

/// `s[i] == c`, with `i` in range.
pub open spec fn at(s: Seq<char>, i: int, c: char) -> bool {
    0 <= i < s.len() && s[i] == c
}

/// The byte span of the characters `s[a..b]`.
pub open spec fn span_of(s: Seq<char>, a: int, b: int) -> Span {
    Span { start: byte_offset(s, a) as u32, end: byte_offset(s, b) as u32 }
}

/// An error of kind `kind` over the characters `s[a..b]`.
pub open spec fn error_at(kind: LexErrorKind, s: Seq<char>, a: int, b: int) -> LexError {
    LexError { kind, span: span_of(s, a, b) }
}

// ------------------------------------------------------------------ trivia

/// Index of the first newline at or after `i`, or the end of `s`.
pub open spec fn line_end(s: Seq<char>, i: int) -> int
    decreases s.len() - i,
{
    if i < 0 || i >= s.len() || s[i] == '\n' {
        i
    } else {
        line_end(s, i + 1)
    }
}

pub proof fn lemma_line_end(s: Seq<char>, i: int)
    requires
        0 <= i,
    ensures
        i <= line_end(s, i),
        i <= s.len() ==> line_end(s, i) <= s.len(),
        line_end(s, i) < s.len() ==> s[line_end(s, i)] == '\n',
    decreases s.len() - i,
{
    if i < s.len() && s[i] != '\n' {
        lemma_line_end(s, i + 1);
    }
}

/// Index of the first character at or after `i` that is neither whitespace
/// nor inside a `//` comment.
pub open spec fn trivia_end(s: Seq<char>, i: int) -> int
    decreases s.len() - i,
{
    if 0 <= i < s.len() && whitespace(s[i]) {
        trivia_end(s, i + 1)
    } else if at(s, i, '/') && at(s, i + 1, '/') {
        proof {
            lemma_line_end(s, i + 2);
        }
        trivia_end(s, line_end(s, i + 2))
    } else {
        i
    }
}

pub proof fn lemma_trivia_end(s: Seq<char>, i: int)
    requires
        0 <= i <= s.len(),
    ensures
        i <= trivia_end(s, i) <= s.len(),
    decreases s.len() - i,
{
    if 0 <= i < s.len() && whitespace(s[i]) {
        lemma_trivia_end(s, i + 1);
    } else if at(s, i, '/') && at(s, i + 1, '/') {
        lemma_line_end(s, i + 2);
        lemma_trivia_end(s, line_end(s, i + 2));
    }
}

// ------------------------------------------------------------- identifiers

/// End of the run of identifier characters starting at `i`.
pub open spec fn ident_end(s: Seq<char>, i: int) -> int
    decreases s.len() - i,
{
    if 0 <= i < s.len() && ident_continue(s[i]) {
        ident_end(s, i + 1)
    } else {
        i
    }
}

pub proof fn lemma_ident_end(s: Seq<char>, i: int)
    requires
        0 <= i <= s.len(),
    ensures
        i <= ident_end(s, i) <= s.len(),
    decreases s.len() - i,
{
    if i < s.len() && ident_continue(s[i]) {
        lemma_ident_end(s, i + 1);
    }
}

/// The token for the word `w`: its keyword, or an identifier.
pub open spec fn word_kind(w: Seq<char>) -> KindView {
    match keyword_of(w) {
        Some(k) => KindView::Fixed(k),
        None => KindView::Ident(w),
    }
}

// ----------------------------------------------------------------- numbers

/// End of the run of `radix` digits and `_` separators starting at `i`.
pub open spec fn digits_end(s: Seq<char>, i: int, radix: nat) -> int
    decreases s.len() - i,
{
    if 0 <= i < s.len() && (s[i] == '_' || radix_digit(s[i], radix)) {
        digits_end(s, i + 1, radix)
    } else {
        i
    }
}

pub proof fn lemma_digits_end(s: Seq<char>, i: int, radix: nat)
    requires
        0 <= i <= s.len(),
    ensures
        i <= digits_end(s, i, radix) <= s.len(),
        forall|k: int| i <= k < digits_end(s, i, radix) ==> (s[k] == '_' || radix_digit(s[k], radix)),
    decreases s.len() - i,
{
    if i < s.len() && (s[i] == '_' || radix_digit(s[i], radix)) {
        lemma_digits_end(s, i + 1, radix);
    }
}

/// `t` without its `_` characters.
pub open spec fn strip_underscores(t: Seq<char>) -> Seq<char>
    decreases t.len(),
{
    if t.len() == 0 {
        t
    } else if t.last() == '_' {
        strip_underscores(t.drop_last())
    } else {
        strip_underscores(t.drop_last()).push(t.last())
    }
}

/// The value of the digit string `t` in base `radix`.
pub open spec fn digits_value(t: Seq<char>, radix: nat) -> nat
    decreases t.len(),
{
    if t.len() == 0 {
        0
    } else {
        digits_value(t.drop_last(), radix) * radix + digit_value(t.last())
    }
}

/// An integer token for the digits `t`, or `0` and an overflow error when the
/// value does not fit in `i64`.
pub open spec fn integer_token(t: Seq<char>, radix: nat, span: Span) -> (KindView, Seq<LexError>) {
    if digits_value(t, radix) > i64::MAX {
        (KindView::Int(0), seq![LexError { kind: LexErrorKind::IntegerOverflow, span }])
    } else {
        (KindView::Int(digits_value(t, radix) as i64), seq![])
    }
}

/// A number written with a `0x`, `0b` or `0o` prefix starting at `start`.
pub open spec fn radix_number(s: Seq<char>, start: int, radix: nat) -> (KindView, int, Seq<LexError>) {
    let de = digits_end(s, start + 2, radix);
    let digits = strip_underscores(s.subrange(start + 2, de));
    if digits.len() == 0 {
        (KindView::Int(0), de, seq![error_at(LexErrorKind::MalformedNumber, s, start, de)])
    } else {
        let r = integer_token(digits, radix, span_of(s, start, de));
        (r.0, de, r.1)
    }
}

/// How a decimal literal continues after its integer digits end at `d`: whether
/// a fraction makes it a float, where the scan stands, where the numeric text
/// ends when a stray `.` was swallowed, and the errors found. A `.` starts a
/// fraction only when a digit follows; `..` is left for a range; a `.`
/// followed by anything else (or by nothing) is swallowed and reported as a
/// malformed number.
pub struct Fraction {
    pub is_float: bool,
    pub end: int,
    pub text_end: Option<int>,
    pub errors: Seq<LexError>,
}

pub open spec fn fraction(s: Seq<char>, start: int, d: int) -> Fraction {
    if at(s, d, '.') {
        if d + 1 < s.len() && ascii_digit(s[d + 1]) {
            Fraction { is_float: true, end: digits_end(s, d + 1, 10), text_end: None, errors: seq![] }
        } else if at(s, d + 1, '.') {
            Fraction { is_float: false, end: d, text_end: None, errors: seq![] }
        } else {
            Fraction {
                is_float: false,
                end: d + 1,
                text_end: Some(d),
                errors: seq![error_at(LexErrorKind::MalformedNumber, s, start, d + 1)],
            }
        }
    } else {
        Fraction { is_float: false, end: d, text_end: None, errors: seq![] }
    }
}

/// Where a well-formed exponent (`e`, optional sign, digits) starting at `p` ends.
pub open spec fn exponent_end(s: Seq<char>, p: int) -> Option<int> {
    if at(s, p, 'e') || at(s, p, 'E') {
        let q = if at(s, p + 1, '+') || at(s, p + 1, '-') { p + 2 } else { p + 1 };
        if 0 <= q < s.len() && ascii_digit(s[q]) {
            Some(digits_end(s, q, 10))
        } else {
            None
        }
    } else {
        None
    }
}

/// A decimal integer or float literal starting at `start`.
pub open spec fn decimal_number(s: Seq<char>, start: int) -> (KindView, int, Seq<LexError>) {
    let d = digits_end(s, start + 1, 10);
    let f = fraction(s, start, d);
    let exp = exponent_end(s, f.end);
    let end = match exp {
        Some(e) => e,
        None => f.end,
    };
    let value_end = match f.text_end {
        Some(t) => t,
        None => end,
    };
    let text = strip_underscores(s.subrange(start, value_end));
    if f.is_float || exp is Some {
        (KindView::Float(text), end, f.errors)
    } else {
        let r = integer_token(text, 10, span_of(s, start, end));
        (r.0, end, f.errors + r.1)
    }
}

/// The number literal starting at `start` (whose first character is a digit):
/// its kind, where it ends, and its errors.
pub open spec fn number(s: Seq<char>, start: int) -> (KindView, int, Seq<LexError>) {
    if s[start] == '0' && (at(s, start + 1, 'x') || at(s, start + 1, 'X')) {
        radix_number(s, start, 16)
    } else if s[start] == '0' && (at(s, start + 1, 'b') || at(s, start + 1, 'B')) {
        radix_number(s, start, 2)
    } else if s[start] == '0' && (at(s, start + 1, 'o') || at(s, start + 1, 'O')) {
        radix_number(s, start, 8)
    } else {
        decimal_number(s, start)
    }
}

// ----------------------------------------------------------------- strings

/// The character a `\xHL` escape stands for.
pub open spec fn hex_escape_char(h: char, l: char) -> char {
    ((digit_value(h) * 16 + digit_value(l)) as u8) as char
}

/// What an escape starting with the `\` at `i` contributes: where scanning
/// resumes, the characters it adds to the string, and its errors.
pub struct Escape {
    pub end: int,
    pub out: Seq<char>,
    pub errors: Seq<LexError>,
}

pub open spec fn escape(s: Seq<char>, i: int) -> Escape {
    let j = i + 1;
    if j >= s.len() {
        Escape { end: j, out: seq![], errors: seq![] }
    } else {
        let c = s[j];
        let k = j + 1;
        if c == 'n' {
            Escape { end: k, out: seq!['\n'], errors: seq![] }
        } else if c == 'r' {
            Escape { end: k, out: seq!['\r'], errors: seq![] }
        } else if c == 't' {
            Escape { end: k, out: seq!['\t'], errors: seq![] }
        } else if c == '0' {
            Escape { end: k, out: seq!['\0'], errors: seq![] }
        } else if c == '\\' {
            Escape { end: k, out: seq!['\\'], errors: seq![] }
        } else if c == '"' {
            Escape { end: k, out: seq!['"'], errors: seq![] }
        } else if c == 'x' {
            if k + 1 < s.len() && hex_digit(s[k]) && hex_digit(s[k + 1]) {
                Escape { end: k + 2, out: seq![hex_escape_char(s[k], s[k + 1])], errors: seq![] }
            } else {
                Escape {
                    end: k,
                    out: seq![],
                    errors: seq![error_at(LexErrorKind::InvalidHexEscape, s, i, k)],
                }
            }
        } else {
            Escape {
                end: k,
                out: seq![c],
                errors: seq![error_at(LexErrorKind::InvalidEscape(c), s, i, k)],
            }
        }
    }
}

/// Scans the body of the string literal opened at `start`, from `i`, having
/// collected `value` and `errors` so far: the value, where the literal ends,
/// and all errors.
pub open spec fn string_body(
    s: Seq<char>,
    start: int,
    i: int,
    value: Seq<char>,
    errors: Seq<LexError>,
) -> (Seq<char>, int, Seq<LexError>)
    decreases s.len() - i,
{
    if i < 0 || i >= s.len() || s[i] == '\n' {
        (value, i, errors.push(error_at(LexErrorKind::UnterminatedString, s, start, i)))
    } else if s[i] == '"' {
        (value, i + 1, errors)
    } else if s[i] == '\\' {
        let e = escape(s, i);
        string_body(s, start, e.end, value + e.out, errors + e.errors)
    } else {
        string_body(s, start, i + 1, value.push(s[i]), errors)
    }
}

// --------------------------------------------------------------- operators

/// The operator or punctuation token starting at `i`, longest form first, and
/// where it ends.
pub open spec fn operator(s: Seq<char>, i: int) -> Option<(TokenKind, int)> {
    let c = s[i];
    if c == '+' {
        if at(s, i + 1, '=') { Some((TokenKind::PlusEq, i + 2)) } else { Some((TokenKind::Plus, i + 1)) }
    } else if c == '-' {
        if at(s, i + 1, '=') {
            Some((TokenKind::MinusEq, i + 2))
        } else if at(s, i + 1, '>') {
            Some((TokenKind::Arrow, i + 2))
        } else {
            Some((TokenKind::Minus, i + 1))
        }
    } else if c == '*' {
        if at(s, i + 1, '=') { Some((TokenKind::StarEq, i + 2)) } else { Some((TokenKind::Star, i + 1)) }
    } else if c == '/' {
        if at(s, i + 1, '=') { Some((TokenKind::SlashEq, i + 2)) } else { Some((TokenKind::Slash, i + 1)) }
    } else if c == '%' {
        Some((TokenKind::Percent, i + 1))
    } else if c == '&' {
        if at(s, i + 1, '&') { Some((TokenKind::AmpAmp, i + 2)) } else { Some((TokenKind::Amp, i + 1)) }
    } else if c == '|' {
        if at(s, i + 1, '|') {
            Some((TokenKind::PipePipe, i + 2))
        } else {
            Some((TokenKind::Pipe, i + 1))
        }
    } else if c == '^' {
        Some((TokenKind::Caret, i + 1))
    } else if c == '!' {
        if at(s, i + 1, '=') { Some((TokenKind::BangEq, i + 2)) } else { Some((TokenKind::Bang, i + 1)) }
    } else if c == '=' {
        if at(s, i + 1, '=') {
            Some((TokenKind::EqEq, i + 2))
        } else if at(s, i + 1, '>') {
            Some((TokenKind::FatArrow, i + 2))
        } else {
            Some((TokenKind::Eq, i + 1))
        }
    } else if c == '<' {
        if at(s, i + 1, '=') {
            Some((TokenKind::LtEq, i + 2))
        } else if at(s, i + 1, '<') {
            Some((TokenKind::Shl, i + 2))
        } else {
            Some((TokenKind::Lt, i + 1))
        }
    } else if c == '>' {
        if at(s, i + 1, '=') {
            Some((TokenKind::GtEq, i + 2))
        } else if at(s, i + 1, '>') {
            Some((TokenKind::Shr, i + 2))
        } else {
            Some((TokenKind::Gt, i + 1))
        }
    } else if c == '.' {
        if at(s, i + 1, '.') {
            if at(s, i + 2, '=') {
                Some((TokenKind::DotDotEq, i + 3))
            } else {
                Some((TokenKind::DotDot, i + 2))
            }
        } else {
            Some((TokenKind::Dot, i + 1))
        }
    } else if c == ':' {
        if at(s, i + 1, ':') {
            Some((TokenKind::ColonColon, i + 2))
        } else {
            Some((TokenKind::Colon, i + 1))
        }
    } else if c == ';' {
        Some((TokenKind::Semi, i + 1))
    } else if c == ',' {
        Some((TokenKind::Comma, i + 1))
    } else if c == '(' {
        Some((TokenKind::LParen, i + 1))
    } else if c == ')' {
        Some((TokenKind::RParen, i + 1))
    } else if c == '{' {
        Some((TokenKind::LBrace, i + 1))
    } else if c == '}' {
        Some((TokenKind::RBrace, i + 1))
    } else if c == '[' {
        Some((TokenKind::LBracket, i + 1))
    } else if c == ']' {
        Some((TokenKind::RBracket, i + 1))
    } else {
        None
    }
}

// ------------------------------------------------------------------ tokens

/// The outcome of asking for one token from position `i`: the token's kind,
/// the character range it covers, and the errors reported on the way
/// (including those for characters skipped because no token starts with them).
pub struct Scan {
    pub kind: KindView,
    pub start: int,
    pub end: int,
    pub errors: Seq<LexError>,
}

/// The token that starts with the character at `j` (which is not trivia):
/// its kind, where it ends, and its errors; `None` when no token starts with
/// that character.
pub open spec fn token_at(s: Seq<char>, j: int) -> Option<(KindView, int, Seq<LexError>)> {
    let c = s[j];
    if ident_start(c) {
        let e = ident_end(s, j + 1);
        Some((word_kind(s.subrange(j, e)), e, seq![]))
    } else if ascii_digit(c) {
        Some(number(s, j))
    } else if c == '"' {
        let r = string_body(s, j, j + 1, seq![], seq![]);
        Some((KindView::Str(r.0), r.1, r.2))
    } else {
        match operator(s, j) {
            Some((k, e)) => Some((KindView::Fixed(k), e, seq![])),
            None => None,
        }
    }
}

pub open spec fn scan(s: Seq<char>, i: int) -> Scan
    decreases s.len() - i,
{
    let j = trivia_end(s, i);
    if i < 0 || i > s.len() || j >= s.len() {
        Scan { kind: KindView::Fixed(TokenKind::Eof), start: s.len() as int, end: s.len() as int, errors: seq![] }
    } else {
        match token_at(s, j) {
            Some(t) => Scan { kind: t.0, start: j, end: t.1, errors: t.2 },
            None => {
                proof {
                    lemma_trivia_end(s, i);
                }
                let rest = scan(s, j + 1);
                Scan {
                    kind: rest.kind,
                    start: rest.start,
                    end: rest.end,
                    errors: seq![error_at(LexErrorKind::UnknownChar(s[j]), s, j, j + 1)] + rest.errors,
                }
            },
        }
    }
}

/// Unfolds `scan` at a character that starts no token.
pub proof fn lemma_scan_skip(s: Seq<char>, i: int)
    requires
        0 <= i <= s.len(),
        trivia_end(s, i) < s.len(),
        token_at(s, trivia_end(s, i)) is None,
    ensures
        ({
            let j = trivia_end(s, i);
            let rest = scan(s, j + 1);
            let e = error_at(LexErrorKind::UnknownChar(s[j]), s, j, j + 1);
            scan(s, i) == Scan { kind: rest.kind, start: rest.start, end: rest.end, errors: seq![e] + rest.errors }
        }),
{
    lemma_trivia_end(s, i);
}

/// One character that starts no token is reported and skipped: the errors
/// reported so far plus those still to come stay the same.
pub proof fn lemma_skip_step(s: Seq<char>, i: int, reported: Seq<LexError>, e: LexError)
    requires
        0 <= i <= s.len(),
        trivia_end(s, i) < s.len(),
        token_at(s, trivia_end(s, i)) is None,
        e == error_at(LexErrorKind::UnknownChar(s[trivia_end(s, i)]), s, trivia_end(s, i), trivia_end(s, i) + 1),
    ensures
        scan(s, trivia_end(s, i) + 1).kind == scan(s, i).kind,
        scan(s, trivia_end(s, i) + 1).start == scan(s, i).start,
        scan(s, trivia_end(s, i) + 1).end == scan(s, i).end,
        reported.push(e) + scan(s, trivia_end(s, i) + 1).errors == reported + scan(s, i).errors,
{
    let j = trivia_end(s, i);
    lemma_scan_skip(s, i);
    let rest = scan(s, j + 1).errors;
    assert(reported.push(e) + rest =~= reported + (seq![e] + rest));
}

// --------------------------------------------------------------- progress

pub proof fn lemma_number_end(s: Seq<char>, start: int)
    requires
        0 <= start < s.len(),
    ensures
        start < number(s, start).1 <= s.len(),
{
    if s[start] == '0' && (at(s, start + 1, 'x') || at(s, start + 1, 'X') || at(s, start + 1, 'b')
        || at(s, start + 1, 'B') || at(s, start + 1, 'o') || at(s, start + 1, 'O')) {
        lemma_digits_end(s, start + 2, 16);
        lemma_digits_end(s, start + 2, 2);
        lemma_digits_end(s, start + 2, 8);
    } else {
        let d = digits_end(s, start + 1, 10);
        lemma_digits_end(s, start + 1, 10);
        if d + 1 < s.len() {
            lemma_digits_end(s, d + 1, 10);
        }
        let f = fraction(s, start, d);
        let p = f.end;
        if 0 <= p + 2 <= s.len() {
            lemma_digits_end(s, p + 2, 10);
        }
        if 0 <= p + 1 <= s.len() {
            lemma_digits_end(s, p + 1, 10);
        }
    }
}

/// An escape of an unknown character reports it.
pub proof fn lemma_escape_invalid(s: Seq<char>, i: int, c: char, reported: Seq<LexError>, x: LexError)
    requires
        0 <= i,
        i + 1 < s.len(),
        s[i + 1] == c,
        !(c == 'n' || c == 'r' || c == 't' || c == '0' || c == '\\' || c == '"' || c == 'x'),
        x == error_at(LexErrorKind::InvalidEscape(c), s, i, i + 2),
    ensures
        reported.push(x) == reported + escape(s, i).errors,
        escape(s, i).out == seq![c],
        escape(s, i).end == i + 2,
{
    assert(reported.push(x) =~= reported + escape(s, i).errors);
}

/// A `\x` escape without two hex digits after it reports it.
pub proof fn lemma_escape_bad_hex(s: Seq<char>, i: int, reported: Seq<LexError>, x: LexError)
    requires
        0 <= i,
        i + 1 < s.len(),
        s[i + 1] == 'x',
        !(i + 3 < s.len() && hex_digit(s[i + 2]) && hex_digit(s[i + 3])),
        x == error_at(LexErrorKind::InvalidHexEscape, s, i, i + 2),
    ensures
        reported.push(x) == reported + escape(s, i).errors,
        escape(s, i).out == Seq::<char>::empty(),
        escape(s, i).end == i + 2,
{
    assert(reported.push(x) =~= reported + escape(s, i).errors);
}

/// An escape reports at most one error, spanning the `\\` and the character after it.
pub proof fn lemma_escape_error_span(s: Seq<char>, i: int)
    requires
        0 <= i < s.len(),
    ensures
        escape(s, i).errors.len() <= 1,
        escape(s, i).errors.len() == 1 ==> i + 2 <= s.len() && escape(s, i).errors[0].span == span_of(s, i, i + 2),
{
    if i + 1 < s.len() {
        lemma_escape_error_span_at(s, i, s[i + 1]);
    }
}

proof fn lemma_escape_error_span_at(s: Seq<char>, i: int, c: char)
    requires
        0 <= i,
        i + 1 < s.len(),
        s[i + 1] == c,
    ensures
        escape(s, i).errors.len() <= 1,
        escape(s, i).errors.len() == 1 ==> escape(s, i).errors[0].span == span_of(s, i, i + 2),
{
}

pub proof fn lemma_escape_end(s: Seq<char>, i: int)
    requires
        0 <= i < s.len(),
    ensures
        i < escape(s, i).end <= s.len(),
{
}

pub proof fn lemma_string_end(s: Seq<char>, start: int, i: int, value: Seq<char>, errors: Seq<LexError>)
    requires
        0 <= i <= s.len(),
    ensures
        i <= string_body(s, start, i, value, errors).1 <= s.len(),
    decreases s.len() - i,
{
    if i < s.len() && s[i] != '\n' && s[i] != '"' {
        if s[i] == '\\' {
            let e = escape(s, i);
            lemma_escape_end(s, i);
            lemma_string_end(s, start, e.end, value + e.out, errors + e.errors);
        } else {
            lemma_string_end(s, start, i + 1, value.push(s[i]), errors);
        }
    }
}

pub proof fn lemma_operator_end(s: Seq<char>, i: int)
    requires
        0 <= i < s.len(),
    ensures
        operator(s, i) matches Some((k, e)) ==> i < e <= s.len() && k != TokenKind::Eof,
{
}

pub proof fn lemma_word_kind(w: Seq<char>)
    ensures
        word_kind(w) != KindView::Fixed(TokenKind::Eof),
{
}

/// A request for a token from a position inside the source either ends the
/// stream at its end or yields a non-empty token at or after that position.
pub proof fn lemma_scan_progress(s: Seq<char>, i: int)
    requires
        0 <= i <= s.len(),
    ensures
        scan(s, i).kind == KindView::Fixed(TokenKind::Eof) ==> scan(s, i).start == s.len()
            && scan(s, i).end == s.len(),
        scan(s, i).kind != KindView::Fixed(TokenKind::Eof) ==> i <= scan(s, i).start < scan(s, i).end
            <= s.len(),
    decreases s.len() - i,
{
    let j = trivia_end(s, i);
    lemma_trivia_end(s, i);
    if j < s.len() {
        let c = s[j];
        if ident_start(c) {
            lemma_ident_end(s, j + 1);
            lemma_word_kind(s.subrange(j, ident_end(s, j + 1)));
        } else if ascii_digit(c) {
            lemma_number_end(s, j);
        } else if c == '"' {
            lemma_string_end(s, j, j + 1, seq![], seq![]);
        } else {
            lemma_operator_end(s, j);
            if operator(s, j) is None {
                lemma_scan_progress(s, j + 1);
            }
        }
    }
}

// ------------------------------------------------------------------ streams

/// The token that a scan yields.
pub open spec fn scanned_token(s: Seq<char>, r: Scan) -> TokenView {
    TokenView { kind: r.kind, span: span_of(s, r.start, r.end) }
}

/// Every token from position `i` up to and including `Eof`, and every error
/// reported on the way.
pub open spec fn lex_from(s: Seq<char>, i: int) -> (Seq<TokenView>, Seq<LexError>)
    decreases s.len() - i,
{
    if i < 0 || i > s.len() {
        (seq![], seq![])
    } else {
        let r = scan(s, i);
        if r.kind == KindView::Fixed(TokenKind::Eof) {
            (seq![scanned_token(s, r)], r.errors)
        } else {
            proof {
                lemma_scan_progress(s, i);
            }
            let rest = lex_from(s, r.end);
            (seq![scanned_token(s, r)] + rest.0, r.errors + rest.1)
        }
    }
}

/// Handing out the token scanned at `i` moves it, and its errors, from what is
/// still to come to what has been produced.
pub proof fn lemma_lex_from_step(s: Seq<char>, i: int, done: Seq<TokenView>, reported: Seq<LexError>)
    requires
        0 <= i <= s.len(),
    ensures
        ({
            let r = scan(s, i);
            let t = scanned_token(s, r);
            &&& r.kind == KindView::Fixed(TokenKind::Eof) ==> done.push(t) == done + lex_from(s, i).0
                && reported + r.errors == reported + lex_from(s, i).1
            &&& r.kind != KindView::Fixed(TokenKind::Eof) ==> done.push(t) + lex_from(s, r.end).0
                == done + lex_from(s, i).0 && (reported + r.errors) + lex_from(s, r.end).1
                == reported + lex_from(s, i).1
        }),
{
    let r = scan(s, i);
    let t = scanned_token(s, r);
    if r.kind == KindView::Fixed(TokenKind::Eof) {
        assert(done.push(t) =~= done + lex_from(s, i).0);
    } else {
        lemma_scan_progress(s, i);
        let rest = lex_from(s, r.end);
        assert(done.push(t) + rest.0 =~= done + (seq![t] + rest.0));
        assert((reported + r.errors) + rest.1 =~= reported + (r.errors + rest.1));
    }
}

/// The whole token stream of `s` (ending in `Eof`) and every error in it.
pub open spec fn lex(s: Seq<char>) -> (Seq<TokenView>, Seq<LexError>) {
    lex_from(s, 0)
}

} // verus!
