//! What holds of every token stream the lexer produces.

use vstd::prelude::*;
use crate::error::{LexError, LexErrorKind};
use crate::lexspec::{
    lemma_scan_skip,
    Escape, Scan, escape, error_at, lex, lex_from, lemma_scan_progress, lemma_trivia_end, number, operator,
    scan, scanned_token, span_of, string_body, token_at, trivia_end, word_kind, lemma_escape_end, lemma_escape_error_span,
    lemma_number_end, lemma_string_end, lemma_ident_end, lemma_digits_end, ident_end, digits_end,
    fraction, exponent_end, radix_number, decimal_number, integer_token,
};
use crate::token::{keyword_kind, keyword_of};
use crate::astdebug::{binary_name, unary_name};
use crate::expr::{BinaryOp, UnaryOp};
use crate::span::Span;
use crate::diag::{lemma_offset_on_boundary, on_boundary};
use crate::lexspec::{at, lemma_line_end, lemma_operator_end, line_end};
use crate::chars::{ascii_digit, digit_value, hex_digit, ident_start, radix_digit, whitespace};
use crate::lexspec::{digits_value, strip_underscores};
use crate::text::{byte_len, byte_offset, lemma_byte_offset_mono};
use crate::token::{KindView, TokenKind, TokenView};

verus! {

/// The stream has at least one token, ends in `Eof`, and has no other `Eof`.
pub open spec fn ends_in_single_eof(t: Seq<TokenView>) -> bool {
    &&& t.len() >= 1
    &&& t.last().kind == KindView::Fixed(TokenKind::Eof)
    &&& forall|k: int| 0 <= k < t.len() - 1 ==> (#[trigger] t[k]).kind != KindView::Fixed(TokenKind::Eof)
}

/// Every span runs forwards, lies within `[lo, hi]`, and no span overlaps a
/// later one.
pub open spec fn spans_ordered_within(t: Seq<TokenView>, lo: int, hi: int) -> bool {
    &&& forall|k: int| 0 <= k < t.len() ==> lo <= (#[trigger] t[k]).span.start <= t[k].span.end <= hi
    &&& forall|k: int, m: int| 0 <= k < m < t.len() ==> (#[trigger] t[k]).span.end <= (#[trigger] t[m]).span.start
}

proof fn lemma_span_of_bounds(s: Seq<char>, a: int, b: int)
    requires
        0 <= a <= b <= s.len(),
        byte_len(s) <= u32::MAX,
    ensures
        span_of(s, a, b).start == byte_offset(s, a),
        span_of(s, a, b).end == byte_offset(s, b),
        byte_offset(s, a) <= byte_offset(s, b) <= byte_len(s),
{
    lemma_byte_offset_mono(s, a, b);
    lemma_byte_offset_mono(s, b, s.len() as int);
}

proof fn lemma_lex_from_shape(s: Seq<char>, i: int)
    requires
        0 <= i <= s.len(),
        byte_len(s) <= u32::MAX,
    ensures
        ends_in_single_eof(lex_from(s, i).0),
        spans_ordered_within(lex_from(s, i).0, byte_offset(s, i) as int, byte_len(s) as int),
        lex_from(s, i).0.last().span == (Span { start: byte_len(s) as u32, end: byte_len(s) as u32 }),
    decreases s.len() - i,
{
    let r = scan(s, i);
    lemma_scan_progress(s, i);
    let t = scanned_token(s, r);
    if r.kind == KindView::Fixed(TokenKind::Eof) {
        lemma_span_of_bounds(s, r.start, r.end);
        lemma_byte_offset_mono(s, i, s.len() as int);
    } else {
        lemma_lex_from_shape(s, r.end);
        lemma_span_of_bounds(s, r.start, r.end);
        lemma_byte_offset_mono(s, i, r.start);
        let rest = lex_from(s, r.end).0;
        let all = lex_from(s, i).0;
        assert(all == seq![t] + rest);
        assert forall|k: int| 0 <= k < all.len() - 1 implies (#[trigger] all[k]).kind != KindView::Fixed(TokenKind::Eof) by {
            if k > 0 {
                assert(all[k] == rest[k - 1]);
            }
        }
        assert forall|k: int| 0 <= k < all.len() implies byte_offset(s, i) <= (#[trigger] all[k]).span.start
            <= all[k].span.end <= byte_len(s) by {
            if k > 0 {
                assert(all[k] == rest[k - 1]);
            }
        }
        assert forall|k: int, m: int| 0 <= k < m < all.len() implies (#[trigger] all[k]).span.end <= (#[trigger] all[m]).span.start by {
            assert(all[m] == rest[m - 1]);
            if k > 0 {
                assert(all[k] == rest[k - 1]);
            }
        }
        assert(all.last() == rest.last());
    }
}

/// The token stream of any source ends in exactly one `Eof` token, whose span
/// is the empty range at the end of the source; the tokens' spans run forwards,
/// stay within the source and never overlap.
pub proof fn token_stream_shape(s: Seq<char>)
    requires
        byte_len(s) <= u32::MAX,
    ensures
        ends_in_single_eof(lex(s).0),
        spans_ordered_within(lex(s).0, 0, byte_len(s) as int),
        lex(s).0.last().span == (Span { start: byte_len(s) as u32, end: byte_len(s) as u32 }),
{
    lemma_lex_from_shape(s, 0);
}

/// `sp` is the byte span of some run of characters of `s`.
pub open spec fn source_span(s: Seq<char>, sp: Span) -> bool {
    exists|a: int, b: int| 0 <= a <= b <= s.len() && sp == #[trigger] span_of(s, a, b)
}

/// Every error's span is the byte span of some run of source characters (so
/// it starts and ends on character boundaries, inside the source).
pub open spec fn errors_in_source(s: Seq<char>, errs: Seq<LexError>) -> bool {
    forall|k: int| 0 <= k < errs.len() ==> source_span(s, (#[trigger] errs[k]).span)
}

proof fn lemma_one_error(s: Seq<char>, e: LexError, a: int, b: int)
    requires
        0 <= a <= b <= s.len(),
        e.span == span_of(s, a, b),
    ensures
        errors_in_source(s, Seq::empty().push(e)),
{
    assert(source_span(s, span_of(s, a, b)));
}

proof fn lemma_escape_errors(s: Seq<char>, i: int)
    requires
        0 <= i < s.len(),
    ensures
        errors_in_source(s, escape(s, i).errors),
{
    let e = escape(s, i);
    lemma_escape_error_span(s, i);
    if e.errors.len() == 1 {
        lemma_one_error(s, e.errors[0], i, i + 2);
        assert(e.errors =~= Seq::empty().push(e.errors[0]));
    }
}

proof fn lemma_errors_concat(s: Seq<char>, x: Seq<LexError>, y: Seq<LexError>)
    requires
        errors_in_source(s, x),
        errors_in_source(s, y),
    ensures
        errors_in_source(s, x + y),
{
    assert forall|k: int| 0 <= k < (x + y).len() implies source_span(s, (#[trigger] (x + y)[k]).span) by {
        if k < x.len() {
            assert((x + y)[k] == x[k]);
        } else {
            assert((x + y)[k] == y[k - x.len()]);
        }
    }
}

proof fn lemma_number_errors(s: Seq<char>, start: int)
    requires
        0 <= start < s.len(),
    ensures
        errors_in_source(s, number(s, start).2),
{
    lemma_number_end(s, start);
    let n = number(s, start);
    if s[start] == '0' && (crate::lexspec::at(s, start + 1, 'x') || crate::lexspec::at(s, start + 1, 'X')
        || crate::lexspec::at(s, start + 1, 'b') || crate::lexspec::at(s, start + 1, 'B')
        || crate::lexspec::at(s, start + 1, 'o') || crate::lexspec::at(s, start + 1, 'O')) {
        assert(source_span(s, span_of(s, start, n.1)));
    } else {
        let d = digits_end(s, start + 1, 10);
        lemma_digits_end(s, start + 1, 10);
        let f = fraction(s, start, d);
        if d + 1 <= s.len() {
            assert(source_span(s, span_of(s, start, d + 1)));
        }
        assert(errors_in_source(s, f.errors));
        assert(source_span(s, span_of(s, start, n.1)));
        let exp = exponent_end(s, f.end);
        let end = match exp {
            Some(e) => e,
            None => f.end,
        };
        assert(end == n.1);
        let tail = integer_token(crate::lexspec::strip_underscores(s.subrange(start, n.1)), 10, span_of(s, start, n.1)).1;
        assert(errors_in_source(s, tail));
        if !(f.is_float || exp is Some) {
            let value_end = match f.text_end {
                Some(t) => t,
                None => end,
            };
            let r = integer_token(crate::lexspec::strip_underscores(s.subrange(start, value_end)), 10, span_of(s, start, end));
            assert(errors_in_source(s, r.1));
            lemma_errors_concat(s, f.errors, r.1);
        }
    }
}

proof fn lemma_string_errors(s: Seq<char>, start: int, i: int, value: Seq<char>, errs: Seq<LexError>)
    requires
        0 <= start < i <= s.len(),
        errors_in_source(s, errs),
    ensures
        errors_in_source(s, string_body(s, start, i, value, errs).2),
    decreases s.len() - i,
{
    if i >= s.len() || s[i] == '\n' {
        let e = error_at(crate::error::LexErrorKind::UnterminatedString, s, start, i);
        lemma_one_error(s, e, start, i);
        assert(errs.push(e) =~= errs + Seq::empty().push(e));
        lemma_errors_concat(s, errs, Seq::empty().push(e));
    } else if s[i] == '"' {
    } else if s[i] == '\\' {
        let e = escape(s, i);
        lemma_escape_end(s, i);
        lemma_escape_errors(s, i);
        lemma_errors_concat(s, errs, e.errors);
        lemma_string_errors(s, start, e.end, value + e.out, errs + e.errors);
    } else {
        lemma_string_errors(s, start, i + 1, value.push(s[i]), errs);
    }
}

proof fn lemma_skip_errors(s: Seq<char>, i: int, e: LexError)
    requires
        0 <= i <= s.len(),
        trivia_end(s, i) < s.len(),
        token_at(s, trivia_end(s, i)) is None,
        e == error_at(crate::error::LexErrorKind::UnknownChar(s[trivia_end(s, i)]), s, trivia_end(s, i), trivia_end(s, i) + 1),
        errors_in_source(s, scan(s, trivia_end(s, i) + 1).errors),
    ensures
        errors_in_source(s, scan(s, i).errors),
{
    let j = trivia_end(s, i);
    lemma_trivia_end(s, i);
    lemma_scan_skip(s, i);
    lemma_one_error(s, e, j, j + 1);
    assert(seq![e] =~= Seq::empty().push(e));
    lemma_errors_concat(s, seq![e], scan(s, j + 1).errors);
}

proof fn lemma_scan_errors(s: Seq<char>, i: int)
    requires
        0 <= i <= s.len(),
    ensures
        errors_in_source(s, scan(s, i).errors),
    decreases s.len() - i,
{
    let j = trivia_end(s, i);
    lemma_trivia_end(s, i);
    if j < s.len() {
        let c = s[j];
        if crate::chars::ident_start(c) {
        } else if crate::chars::ascii_digit(c) {
            lemma_number_errors(s, j);
        } else if c == '"' {
            lemma_string_errors(s, j, j + 1, seq![], seq![]);
        } else if operator(s, j) is None {
            lemma_scan_errors(s, j + 1);
            lemma_skip_errors(s, i, error_at(crate::error::LexErrorKind::UnknownChar(s[j]), s, j, j + 1));
        }
    }
}

proof fn lemma_lex_from_errors(s: Seq<char>, i: int)
    requires
        0 <= i <= s.len(),
    ensures
        errors_in_source(s, lex_from(s, i).1),
    decreases s.len() - i,
{
    let r = scan(s, i);
    lemma_scan_errors(s, i);
    lemma_scan_progress(s, i);
    if r.kind != KindView::Fixed(TokenKind::Eof) {
        lemma_lex_from_errors(s, r.end);
        lemma_errors_concat(s, r.errors, lex_from(s, r.end).1);
    }
}

/// Every error the lexer reports carries the byte span of a run of source
/// characters, so diagnostics can always point at the offending text.
pub proof fn errors_point_into_source(s: Seq<char>)
    ensures
        errors_in_source(s, lex(s).1),
{
    lemma_lex_from_errors(s, 0);
}

/// The token `t` spans the characters `s[a..b]`, and if it is an identifier,
/// a keyword or an operator, those characters are its spelling.
pub open spec fn spells(s: Seq<char>, t: TokenView, a: int, b: int) -> bool {
    &&& 0 <= a <= b <= s.len()
    &&& t.span == span_of(s, a, b)
    &&& (t.kind matches KindView::Ident(w) ==> w == s.subrange(a, b))
    &&& (t.kind matches KindView::Fixed(k) ==> k is Eof || keyword_of(s.subrange(a, b)) == Some(k)
        || operator(s, a) == Some((k, b)))
}

/// The token `t` spans some run of source characters that it spells.
pub open spec fn spells_some(s: Seq<char>, t: TokenView) -> bool {
    exists|a: int, b: int| #[trigger] spells(s, t, a, b)
}

/// Every token covers a run of the source, and identifier, keyword and
/// operator tokens cover exactly their own spelling.
pub open spec fn tokens_spell_source(s: Seq<char>, t: Seq<TokenView>) -> bool {
    forall|k: int| 0 <= k < t.len() ==> spells_some(s, #[trigger] t[k])
}

proof fn lemma_scan_spells(s: Seq<char>, i: int)
    requires
        0 <= i <= s.len(),
    ensures
        spells(s, scanned_token(s, scan(s, i)), scan(s, i).start, scan(s, i).end),
    decreases s.len() - i,
{
    let j = trivia_end(s, i);
    lemma_trivia_end(s, i);
    lemma_scan_progress(s, i);
    if j < s.len() {
        let c = s[j];
        if crate::chars::ident_start(c) {
            lemma_ident_end(s, j + 1);
        } else if crate::chars::ascii_digit(c) {
        } else if c == '"' {
        } else if operator(s, j) is None {
            lemma_scan_spells(s, j + 1);
        }
    }
}

proof fn lemma_lex_from_spells(s: Seq<char>, i: int)
    requires
        0 <= i <= s.len(),
    ensures
        tokens_spell_source(s, lex_from(s, i).0),
    decreases s.len() - i,
{
    let r = scan(s, i);
    let t = scanned_token(s, r);
    lemma_scan_spells(s, i);
    lemma_scan_progress(s, i);
    let all = lex_from(s, i).0;
    if r.kind == KindView::Fixed(TokenKind::Eof) {
        assert forall|k: int| 0 <= k < all.len() implies spells_some(s, #[trigger] all[k]) by {
            assert(spells(s, all[k], r.start, r.end));
        }
    } else {
        lemma_lex_from_spells(s, r.end);
        let rest = lex_from(s, r.end).0;
        assert forall|k: int| 0 <= k < all.len() implies spells_some(s, #[trigger] all[k]) by {
            if k == 0 {
                assert(spells(s, all[k], r.start, r.end));
            } else {
                assert(all[k] == rest[k - 1]);
            }
        }
    }
}

/// Every token covers a run of the source; an identifier token's text, and a
/// keyword's or operator's spelling, is exactly the source text its span covers.
pub proof fn tokens_cover_their_spelling(s: Seq<char>)
    ensures
        tokens_spell_source(s, lex(s).0),
{
    lemma_lex_from_spells(s, 0);
}

/// Every word recognised as a keyword yields a token that reports itself as
/// a keyword, and a keyword token is never an identifier or a literal other
/// than `true` and `false`.
pub proof fn recognised_keywords_are_keywords(word: Seq<char>)
    ensures
        keyword_of(word) matches Some(k) ==> keyword_kind(k),
        keyword_of(word) matches Some(k) ==> !(k is Ident) && !(k is Int) && !(k is Float) && !(k is Str),
{
}

/// Every error span the lexer reports starts and ends on character
/// boundaries of the source, so the diagnostics made from the errors meet what
/// `render` asks of their spans.
pub proof fn error_spans_on_boundaries(s: Seq<char>)
    requires
        byte_len(s) <= u32::MAX,
    ensures
        forall|k: int|
            0 <= k < lex(s).1.len() ==> on_boundary(s, (#[trigger] lex(s).1[k]).span.start as int)
                && on_boundary(s, lex(s).1[k].span.end as int),
{
    errors_point_into_source(s);
    assert forall|k: int| 0 <= k < lex(s).1.len() implies on_boundary(
        s,
        (#[trigger] lex(s).1[k]).span.start as int,
    ) && on_boundary(s, lex(s).1[k].span.end as int) by {
        let sp = lex(s).1[k].span;
        assert(source_span(s, sp));
        let (a, b) = choose|a: int, b: int| 0 <= a <= b <= s.len() && sp == #[trigger] span_of(s, a, b);
        lemma_byte_offset_mono(s, a, s.len() as int);
        lemma_byte_offset_mono(s, b, s.len() as int);
        lemma_offset_on_boundary(s, a);
        lemma_offset_on_boundary(s, b);
    }
}

proof fn lemma_trivia_stops(s: Seq<char>, i: int)
    ensures
        ({
            let j = trivia_end(s, i);
            !(0 <= j < s.len() && whitespace(s[j])) && !(at(s, j, '/') && at(s, j + 1, '/'))
        }),
    decreases s.len() - i,
{
    if 0 <= i < s.len() && whitespace(s[i]) {
        lemma_trivia_stops(s, i + 1);
    } else if at(s, i, '/') && at(s, i + 1, '/') {
        lemma_line_end(s, i + 2);
        lemma_trivia_stops(s, line_end(s, i + 2));
    }
}

/// Skipping whitespace and comments from where skipping stopped skips nothing
/// more.
pub proof fn trivia_skipping_is_idempotent(s: Seq<char>, i: int)
    ensures
        trivia_end(s, trivia_end(s, i)) == trivia_end(s, i),
{
    lemma_trivia_stops(s, i);
}

proof fn lemma_lex_from_count(s: Seq<char>, i: int)
    requires
        0 <= i <= s.len(),
    ensures
        lex_from(s, i).0.len() <= s.len() - i + 1,
    decreases s.len() - i,
{
    let r = scan(s, i);
    lemma_scan_progress(s, i);
    if r.kind != KindView::Fixed(TokenKind::Eof) {
        lemma_lex_from_count(s, r.end);
    }
}

/// A source of `n` characters yields at most `n + 1` tokens: every token but
/// the final `Eof` covers at least one character.
pub proof fn at_most_one_token_per_character(s: Seq<char>)
    ensures
        lex(s).0.len() <= s.len() + 1,
{
    lemma_lex_from_count(s, 0);
}

/// The characters that begin an operator or a delimiter.
pub open spec fn punctuation(c: char) -> bool {
    c == '+' || c == '-' || c == '*' || c == '/' || c == '%' || c == '&' || c == '|' || c == '^'
        || c == '!' || c == '=' || c == '<' || c == '>' || c == '.' || c == ':' || c == ';' || c == ','
        || c == '(' || c == ')' || c == '{' || c == '}' || c == '[' || c == ']'
}

/// The two-character operators: `== != <= >= && || << >> += -= *= /= -> =>
/// .. ::`.
pub open spec fn two_char_operator(a: char, b: char) -> bool {
    ||| a == '=' && (b == '=' || b == '>')
    ||| a == '!' && b == '='
    ||| a == '<' && (b == '=' || b == '<')
    ||| a == '>' && (b == '=' || b == '>')
    ||| a == '&' && b == '&'
    ||| a == '|' && b == '|'
    ||| a == '+' && b == '='
    ||| a == '-' && (b == '=' || b == '>')
    ||| a == '*' && b == '='
    ||| a == '/' && b == '='
    ||| a == '.' && b == '.'
    ||| a == ':' && b == ':'
}

/// Operators are matched longest first: `..=` when it is spelt, otherwise a
/// two-character operator when one is spelt, otherwise one character (so `->`
/// is `Arrow`, and `<<=` is `Shl` followed by `=`).
pub proof fn operators_match_longest_first(s: Seq<char>, i: int)
    requires
        0 <= i < s.len(),
        punctuation(s[i]),
    ensures
        operator(s, i) matches Some((k, e)) && (if s[i] == '.' && at(s, i + 1, '.') && at(s, i + 2, '=') {
            e == i + 3
        } else if i + 1 < s.len() && two_char_operator(s[i], s[i + 1]) {
            e == i + 2
        } else {
            e == i + 1
        }),
{
}

/// An operator or delimiter is recognised exactly at a punctuation character;
/// it reports no error and takes that character and at most two more (the
/// longest spelling being `..=`).
pub proof fn operators_start_at_punctuation(s: Seq<char>, i: int)
    requires
        0 <= i < s.len(),
    ensures
        operator(s, i) is Some <==> punctuation(s[i]),
        operator(s, i) matches Some((k, e)) ==> i + 1 <= e <= i + 3 && e <= s.len(),
        token_at(s, i) is None <==> !ident_start(s[i]) && !ascii_digit(s[i]) && s[i] != '"'
            && !punctuation(s[i]),
{
    lemma_operator_end(s, i);
}

/// Whether scanning from `i` reaches `t` by skipping only whitespace,
/// comments and characters that start no token.
pub open spec fn skipped_to(s: Seq<char>, i: int, t: int) -> bool
    decreases s.len() - i,
{
    if i < 0 || i > s.len() {
        false
    } else {
        let j = trivia_end(s, i);
        if j == t {
            true
        } else if i <= j < t && j < s.len() && token_at(s, j) is None {
            skipped_to(s, j + 1, t)
        } else {
            false
        }
    }
}

/// The error for the character at `j`, which starts no token.
pub open spec fn unknown_at(s: Seq<char>, j: int) -> LexError {
    error_at(LexErrorKind::UnknownChar(s[j]), s, j, j + 1)
}

/// What skipping from `i` up to `t` reports: an `UnknownChar` error over each
/// skipped character that starts no token, in order.
pub open spec fn skip_errors(s: Seq<char>, i: int, t: int) -> Seq<LexError>
    decreases s.len() - i,
{
    if i < 0 || i > s.len() {
        seq![]
    } else {
        let j = trivia_end(s, i);
        if i <= j < t && j < s.len() {
            seq![unknown_at(s, j)] + skip_errors(s, j + 1, t)
        } else {
            seq![]
        }
    }
}

proof fn lemma_skip_errors_step(s: Seq<char>, i: int, t: int)
    requires
        0 <= i <= s.len(),
        trivia_end(s, i) < t,
        trivia_end(s, i) < s.len(),
    ensures
        skip_errors(s, i, t) == seq![unknown_at(s, trivia_end(s, i))] + skip_errors(s, trivia_end(s, i) + 1, t),
{
    lemma_trivia_end(s, i);
}

/// One request for a token skips only whitespace, comments and characters that
/// start no token, reporting `UnknownChar` for each of the latter in order; it
/// then yields the token that starts there with that token's own errors, or,
/// when only such text remains, `Eof` at the end of the source.
pub proof fn scan_skips_only_junk(s: Seq<char>, i: int)
    requires
        0 <= i <= s.len(),
    ensures
        ({
            let r = scan(s, i);
            &&& r.kind == KindView::Fixed(TokenKind::Eof) ==> skipped_to(s, i, s.len() as int)
                && r.errors == skip_errors(s, i, s.len() as int)
            &&& r.kind != KindView::Fixed(TokenKind::Eof) ==> skipped_to(s, i, r.start)
                && (token_at(s, r.start) matches Some(t) && r.kind == t.0 && r.end == t.1
                && r.errors == skip_errors(s, i, r.start) + t.2)
        }),
    decreases s.len() - i,
{
    let j = trivia_end(s, i);
    lemma_trivia_end(s, i);
    lemma_scan_progress(s, i);
    if j < s.len() {
        match token_at(s, j) {
            Some(t) => {
                assert(skip_errors(s, i, j) == Seq::<LexError>::empty());
                assert(skip_errors(s, i, j) + t.2 =~= t.2);
            },
            None => {
                let rest = scan(s, j + 1);
                scan_skips_only_junk(s, j + 1);
                lemma_scan_progress(s, j + 1);
                let e = unknown_at(s, j);
                if rest.kind == KindView::Fixed(TokenKind::Eof) {
                    lemma_skip_errors_step(s, i, s.len() as int);
                } else {
                    lemma_skip_errors_step(s, i, rest.start);
                    let t = token_at(s, rest.start).unwrap();
                    assert(seq![e] + (skip_errors(s, j + 1, rest.start) + t.2) =~= (seq![e] + skip_errors(
                        s,
                        j + 1,
                        rest.start,
                    )) + t.2);
                }
            },
        }
    } else {
        assert(skip_errors(s, i, s.len() as int) == Seq::<LexError>::empty());
    }
}

/// What a lexer standing at character `p` of `s` still hands out, call after
/// call (`lex_from(s, p)`, by `next_token`'s contract): at most one token per
/// remaining character plus one, ending in the one and only `Eof`, whose span
/// is the empty range at the end of the source, with spans in order inside
/// what remains. After that `Eof` every call gives `None` and leaves the lexer
/// as it is (again by `next_token`'s contract).
pub proof fn remaining_tokens_shape(s: Seq<char>, p: int)
    requires
        0 <= p <= s.len(),
        byte_len(s) <= u32::MAX,
    ensures
        lex_from(s, p).0.len() <= s.len() - p + 1,
        ends_in_single_eof(lex_from(s, p).0),
        spans_ordered_within(lex_from(s, p).0, byte_offset(s, p) as int, byte_len(s) as int),
        lex_from(s, p).0.last().span == (Span { start: byte_len(s) as u32, end: byte_len(s) as u32 }),
{
    lemma_lex_from_count(s, p);
    lemma_lex_from_shape(s, p);
}

/// The base a radix prefix letter selects: `x`/`X` hexadecimal, `b`/`B`
/// binary, `o`/`O` octal (0 for any other letter).
pub open spec fn prefix_radix(c: char) -> nat {
    if c == 'x' || c == 'X' {
        16
    } else if c == 'b' || c == 'B' {
        2
    } else if c == 'o' || c == 'O' {
        8
    } else {
        0
    }
}

proof fn lemma_digit_run_end(s: Seq<char>, i: int, e: int, radix: nat)
    requires
        0 <= i <= e <= s.len(),
        2 <= radix <= 36,
        forall|k: int| i <= k < e ==> radix_digit(s[k], radix),
        e == s.len() || !(s[e] == '_' || radix_digit(s[e], radix)),
    ensures
        digits_end(s, i, radix) == e,
    decreases e - i,
{
    if i < e {
        lemma_digit_run_end(s, i + 1, e, radix);
    }
}

proof fn lemma_no_separators(t: Seq<char>, radix: nat)
    requires
        2 <= radix <= 36,
        forall|k: int| 0 <= k < t.len() ==> radix_digit(t[k], radix),
    ensures
        strip_underscores(t) == t,
    decreases t.len(),
{
    if t.len() > 0 {
        let u = t.drop_last();
        assert forall|k: int| 0 <= k < u.len() implies radix_digit(u[k], radix) by {
            assert(u[k] == t[k]);
        }
        lemma_no_separators(u, radix);
        assert(radix_digit(t[t.len() - 1], radix));
        assert(u.push(t.last()) =~= t);
    }
}

/// A literal `0` followed by a radix letter of either case (`x`, `b`, `o`) and
/// a run of digits of that radix is one integer token, ending where the run
/// ends, whose value is the value of those digits in that radix.
pub proof fn prefixed_literals_have_their_radix_value(s: Seq<char>, start: int, e: int)
    requires
        0 <= start,
        start + 2 < e <= s.len(),
        s[start] == '0',
        prefix_radix(s[start + 1]) > 0,
        forall|k: int| start + 2 <= k < e ==> radix_digit(#[trigger] s[k], prefix_radix(s[start + 1])),
        e == s.len() || !(s[e] == '_' || radix_digit(s[e], prefix_radix(s[start + 1]))),
        digits_value(s.subrange(start + 2, e), prefix_radix(s[start + 1])) <= i64::MAX,
    ensures
        number(s, start) == (
            KindView::Int(digits_value(s.subrange(start + 2, e), prefix_radix(s[start + 1])) as i64),
            e,
            Seq::<LexError>::empty(),
        ),
{
    let r = prefix_radix(s[start + 1]);
    lemma_digit_run_end(s, start + 2, e, r);
    let t = s.subrange(start + 2, e);
    assert forall|k: int| 0 <= k < t.len() implies radix_digit(t[k], r) by {
        assert(t[k] == s[start + 2 + k]);
    }
    lemma_no_separators(t, r);
}

/// A `\xHL` escape with two hexadecimal digits adds exactly one character, the
/// one whose code point is `16 * H + L`, reports nothing, and resumes after the
/// two digits.
pub proof fn hex_escapes_give_their_code_point(s: Seq<char>, i: int)
    requires
        0 <= i,
        i + 3 < s.len(),
        s[i + 1] == 'x',
        hex_digit(s[i + 2]),
        hex_digit(s[i + 3]),
    ensures
        escape(s, i).end == i + 4,
        escape(s, i).errors.len() == 0,
        escape(s, i).out.len() == 1,
        escape(s, i).out[0] as u32 == digit_value(s[i + 2]) * 16 + digit_value(s[i + 3]),
{
    let v = digit_value(s[i + 2]) * 16 + digit_value(s[i + 3]);
    assert(v < 256);
    let b = v as u8;
    assert(b as int == v);
    assert((b as char) as u32 == b as u32);
}

/// The name each binary operator variant is declared with.
pub open spec fn declared_binary_name(op: BinaryOp) -> Seq<char> {
    match op {
        BinaryOp::Or => "Or"@,
        BinaryOp::And => "And"@,
        BinaryOp::Eq => "Eq"@,
        BinaryOp::Ne => "Ne"@,
        BinaryOp::Lt => "Lt"@,
        BinaryOp::Le => "Le"@,
        BinaryOp::Gt => "Gt"@,
        BinaryOp::Ge => "Ge"@,
        BinaryOp::BitOr => "BitOr"@,
        BinaryOp::BitXor => "BitXor"@,
        BinaryOp::BitAnd => "BitAnd"@,
        BinaryOp::Shl => "Shl"@,
        BinaryOp::Shr => "Shr"@,
        BinaryOp::Add => "Add"@,
        BinaryOp::Sub => "Sub"@,
        BinaryOp::Mul => "Mul"@,
        BinaryOp::Div => "Div"@,
        BinaryOp::Rem => "Rem"@,
    }
}

/// The name each unary operator variant is declared with.
pub open spec fn declared_unary_name(op: UnaryOp) -> Seq<char> {
    match op {
        UnaryOp::Neg => "Neg"@,
        UnaryOp::Not => "Not"@,
    }
}

/// The name an operator's debug form shows is the name its variant is
/// declared with, for every variant.
pub proof fn operator_names_are_variant_names()
    ensures
        forall|op: BinaryOp| #[trigger] binary_name(op) == declared_binary_name(op),
        forall|op: UnaryOp| #[trigger] unary_name(op) == declared_unary_name(op),
{
}

/// The character a one-letter escape stands for: `n` a line feed, `r` a
/// carriage return, `t` a tab, `0` the null character, and `\\` and `"`
/// themselves.
pub open spec fn simple_escape(c: char) -> Option<char> {
    if c == 'n' {
        Some('\u{0A}')
    } else if c == 'r' {
        Some('\u{0D}')
    } else if c == 't' {
        Some('\u{09}')
    } else if c == '0' {
        Some('\u{00}')
    } else if c == '\\' {
        Some('\\')
    } else if c == '"' {
        Some('"')
    } else {
        None
    }
}

/// The error for an unknown escape `\\c` at `i`.
pub open spec fn unknown_escape_at(s: Seq<char>, i: int) -> LexError {
    error_at(LexErrorKind::InvalidEscape(s[i + 1]), s, i, i + 2)
}

/// A one-letter escape adds the one character it stands for and resumes right
/// after the letter; any other letter but `x` is kept as it is and reported as
/// an unknown escape (`InvalidEscape` of that letter) over the backslash and
/// the letter.
pub proof fn escapes_add_what_they_stand_for(s: Seq<char>, i: int)
    requires
        0 <= i,
        i + 1 < s.len(),
        s[i + 1] != 'x',
    ensures
        escape(s, i).end == i + 2,
        simple_escape(s[i + 1]) matches Some(c) ==> escape(s, i).out == seq![c] && escape(s, i).errors.len()
            == 0,
        simple_escape(s[i + 1]) is None ==> escape(s, i).out == seq![s[i + 1]] && escape(s, i).errors
            == seq![unknown_escape_at(s, i)],
        unknown_escape_at(s, i).kind == LexErrorKind::InvalidEscape(s[i + 1]),
        unknown_escape_at(s, i).span == span_of(s, i, i + 2),
{
}

/// A run of ASCII digits that is not a radix prefix and is followed by neither
/// `.`, `_`, another digit nor an exponent marker is one integer token with
/// the decimal value of the digits, or `0` and an overflow error over the
/// digits when that value does not fit in `i64`.
pub proof fn decimal_literals_have_their_value(s: Seq<char>, start: int, e: int)
    requires
        0 <= start < e <= s.len(),
        forall|k: int| start <= k < e ==> ascii_digit(#[trigger] s[k]),
        e == s.len() || !(s[e] == '_' || ascii_digit(s[e]) || s[e] == '.' || s[e] == 'e' || s[e] == 'E'),
        !(s[start] == '0' && start + 1 < s.len() && prefix_radix(s[start + 1]) > 0),
    ensures
        digits_value(s.subrange(start, e), 10) <= i64::MAX ==> number(s, start) == (
            KindView::Int(digits_value(s.subrange(start, e), 10) as i64),
            e,
            Seq::<LexError>::empty(),
        ),
        digits_value(s.subrange(start, e), 10) > i64::MAX ==> number(s, start) == (
            KindView::Int(0),
            e,
            seq![LexError { kind: LexErrorKind::IntegerOverflow, span: span_of(s, start, e) }],
        ),
{
    lemma_digit_run_end(s, start + 1, e, 10);
    let t = s.subrange(start, e);
    assert forall|k: int| 0 <= k < t.len() implies radix_digit(t[k], 10) by {
        assert(t[k] == s[start + k]);
    }
    lemma_no_separators(t, 10);
    assert(Seq::<LexError>::empty() + Seq::<LexError>::empty() =~= Seq::<LexError>::empty());
}

} // verus!
