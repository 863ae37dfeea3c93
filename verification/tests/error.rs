use nex::{LexError, LexErrorKind, Span};

#[test]
fn every_error_kind_has_its_message() {
    let cases = [
        (LexErrorKind::UnknownChar('@'), "unexpected character `@`"),
        (LexErrorKind::UnterminatedString, "unterminated string literal"),
        (LexErrorKind::InvalidEscape('q'), "unknown escape sequence `\\q`"),
        (
            LexErrorKind::InvalidHexEscape,
            "`\\x` must be followed by exactly two hex digits",
        ),
        (LexErrorKind::MalformedNumber, "malformed numeric literal"),
        (LexErrorKind::IntegerOverflow, "integer literal is too large for `i64`"),
        (LexErrorKind::InvalidFloat, "invalid float literal"),
    ];
    for (kind, text) in cases {
        assert_eq!(kind.message(), text);
    }
}

#[test]
fn help_exists_for_the_documented_kinds_only() {
    let at = Span::new(0, 1);
    assert_eq!(LexError::new(LexErrorKind::UnknownChar('#'), at).help(), None);
    assert_eq!(
        LexError::new(LexErrorKind::UnterminatedString, at).help(),
        Some("add a closing `\"`")
    );
    assert_eq!(
        LexError::new(LexErrorKind::InvalidEscape('z'), at).help(),
        Some("valid escapes are \\n \\r \\t \\0 \\\\ \\\" and \\xNN")
    );
    assert_eq!(LexError::new(LexErrorKind::InvalidHexEscape, at).help(), None);
    assert_eq!(
        LexError::new(LexErrorKind::MalformedNumber, at).help(),
        Some("a digit must follow the prefix or decimal point")
    );
    assert_eq!(
        LexError::new(LexErrorKind::IntegerOverflow, at).help(),
        Some("the maximum is 9223372036854775807")
    );
    assert_eq!(LexError::new(LexErrorKind::InvalidFloat, at).help(), None);
}

#[test]
fn error_display_names_the_span() {
    let e = LexError::new(LexErrorKind::UnknownChar('$'), Span::new(4, 5));
    assert_eq!(e.to_display_string(), "unexpected character `$` at 4..5");
    assert_eq!(e.kind, LexErrorKind::UnknownChar('$'));
    assert_eq!(e.span, Span::new(4, 5));
}
