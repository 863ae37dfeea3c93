//! Recoverable lexing errors.

use vstd::prelude::*;
use crate::span::{Span, span_text};
use crate::text::{push_char, push_str};

verus! {

/// What went wrong while scanning.
#[derive(Clone, Copy, Debug, PartialEq, Eq, Structural)]
pub enum LexErrorKind {
    /// A character that cannot begin any token.
    UnknownChar(char),
    /// A string literal that ran to end of line or end of file.
    UnterminatedString,
    /// `\q` and friends.
    InvalidEscape(char),
    /// `\x` not followed by two hex digits.
    InvalidHexEscape,
    /// `0x` / `0b` / `0o` with no digits, or `1.` followed by a non-digit
    /// (other than a second `.`, which makes a range).
    MalformedNumber,
    /// An integer literal too large for `i64`.
    IntegerOverflow,
    /// A float literal that could not be parsed.
    InvalidFloat,
}

/// The one-line message for an error kind.
pub open spec fn message_text(k: LexErrorKind) -> Seq<char> {
    match k {
        LexErrorKind::UnknownChar(c) => "unexpected character `"@ + seq![c] + "`"@,
        LexErrorKind::UnterminatedString => "unterminated string literal"@,
        LexErrorKind::InvalidEscape(c) => "unknown escape sequence `\\"@ + seq![c] + "`"@,
        LexErrorKind::InvalidHexEscape => "`\\x` must be followed by exactly two hex digits"@,
        LexErrorKind::MalformedNumber => "malformed numeric literal"@,
        LexErrorKind::IntegerOverflow => "integer literal is too large for `i64`"@,
        LexErrorKind::InvalidFloat => "invalid float literal"@,
    }
}

/// The hint shown under the offending span, for the kinds that have one.
pub open spec fn help_text(k: LexErrorKind) -> Option<Seq<char>> {
    match k {
        LexErrorKind::UnterminatedString => Some("add a closing `\"`"@),
        LexErrorKind::InvalidEscape(_) => Some("valid escapes are \\n \\r \\t \\0 \\\\ \\\" and \\xNN"@),
        LexErrorKind::MalformedNumber => Some("a digit must follow the prefix or decimal point"@),
        LexErrorKind::IntegerOverflow => Some("the maximum is 9223372036854775807"@),
        _ => None,
    }
}

impl LexErrorKind {
    /// The one-line message, as the error is displayed.
    pub fn message(&self) -> (r: String)
        ensures
            r@ == message_text(*self),
    {
        match self {
            LexErrorKind::UnknownChar(c) => {
                let mut out = String::new();
                push_str(&mut out, "unexpected character `");
                push_char(&mut out, *c);
                push_str(&mut out, "`");
                out
            },
            LexErrorKind::UnterminatedString => String::from_str("unterminated string literal"),
            LexErrorKind::InvalidEscape(c) => {
                let mut out = String::new();
                push_str(&mut out, "unknown escape sequence `\\");
                push_char(&mut out, *c);
                push_str(&mut out, "`");
                out
            },
            LexErrorKind::InvalidHexEscape => String::from_str(
                "`\\x` must be followed by exactly two hex digits",
            ),
            LexErrorKind::MalformedNumber => String::from_str("malformed numeric literal"),
            LexErrorKind::IntegerOverflow => String::from_str(
                "integer literal is too large for `i64`",
            ),
            LexErrorKind::InvalidFloat => String::from_str("invalid float literal"),
        }
    }
}

/// A recoverable lexing error. The lexer never stops on one of these.
#[derive(Clone, Copy, Debug, PartialEq, Eq, Structural)]
pub struct LexError {
    pub kind: LexErrorKind,
    pub span: Span,
}

impl LexError {
    pub fn new(kind: LexErrorKind, span: Span) -> (r: LexError)
        ensures
            r == (LexError { kind, span }),
    {
        LexError { kind, span }
    }

    /// A short hint shown under the offending span.
    pub fn help(&self) -> (r: Option<&'static str>)
        ensures
            r is Some <==> help_text(self.kind) is Some,
            r matches Some(h) ==> Some(h@) == help_text(self.kind),
    {
        match self.kind {
            LexErrorKind::UnterminatedString => Some("add a closing `\"`"),
            LexErrorKind::InvalidEscape(_) => Some(
                "valid escapes are \\n \\r \\t \\0 \\\\ \\\" and \\xNN",
            ),
            LexErrorKind::MalformedNumber => Some("a digit must follow the prefix or decimal point"),
            LexErrorKind::IntegerOverflow => Some("the maximum is 9223372036854775807"),
            _ => None,
        }
    }

    /// `message at start..end`, as the error is displayed.
    pub fn to_display_string(&self) -> (r: String)
        ensures
            r@ == message_text(self.kind) + " at "@ + span_text(self.span),
    {
        let mut out = self.kind.message();
        push_str(&mut out, " at ");
        let s = self.span.to_debug_string();
        push_str(&mut out, s.as_str());
        out
    }
}

} // verus!
