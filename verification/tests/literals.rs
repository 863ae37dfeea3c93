use nex::{tokenize, tokenize_kinds, LexErrorKind, TokenKind};

fn kinds_of_errors(src: &str) -> Vec<LexErrorKind> {
    tokenize(src).1.into_iter().map(|e| e.kind).collect()
}

/// The value of a float token, whose text the lexer hands out unconverted.
fn float_value(kind: &TokenKind) -> f64 {
    match kind {
        TokenKind::Float(text) => text.parse().unwrap(),
        other => panic!("expected a float, got {other:?}"),
    }
}

fn single_float(src: &str) -> f64 {
    let kinds = tokenize_kinds(src);
    assert_eq!(kinds.len(), 2, "{kinds:?}");
    assert_eq!(kinds[1], TokenKind::Eof);
    float_value(&kinds[0])
}

// ------------------------------------------------------------------ integers

#[test]
fn decimal_integers() {
    assert_eq!(tokenize_kinds("0"), vec![TokenKind::Int(0), TokenKind::Eof]);
    assert_eq!(
        tokenize_kinds("42"),
        vec![TokenKind::Int(42), TokenKind::Eof]
    );
}

#[test]
fn underscore_separators_are_ignored() {
    assert_eq!(
        tokenize_kinds("1_000_000"),
        vec![TokenKind::Int(1_000_000), TokenKind::Eof]
    );
}

#[test]
fn hex_binary_and_octal() {
    assert_eq!(
        tokenize_kinds("0xFF"),
        vec![TokenKind::Int(255), TokenKind::Eof]
    );
    assert_eq!(
        tokenize_kinds("0x_ff"),
        vec![TokenKind::Int(255), TokenKind::Eof]
    );
    assert_eq!(
        tokenize_kinds("0b1010"),
        vec![TokenKind::Int(10), TokenKind::Eof]
    );
    assert_eq!(
        tokenize_kinds("0o17"),
        vec![TokenKind::Int(15), TokenKind::Eof]
    );
}

#[test]
fn radix_prefix_without_digits_is_an_error() {
    assert_eq!(kinds_of_errors("0x"), vec![LexErrorKind::MalformedNumber]);
    assert_eq!(kinds_of_errors("0b"), vec![LexErrorKind::MalformedNumber]);
}

#[test]
fn integer_overflow_is_reported() {
    assert_eq!(
        kinds_of_errors("99999999999999999999"),
        vec![LexErrorKind::IntegerOverflow]
    );
}

// -------------------------------------------------------------------- floats

#[test]
fn simple_floats() {
    assert_eq!(single_float("1.0"), 1.0);
    assert_eq!(single_float("0.5"), 0.5);
}

#[test]
fn exponents() {
    assert_eq!(single_float("1e10"), 1e10);
    assert_eq!(single_float("2.5e-3"), 2.5e-3);
    assert_eq!(single_float("1E+5"), 1e5);
}

#[test]
fn range_after_integer_is_not_a_float() {
    assert_eq!(
        tokenize_kinds("0..10"),
        vec![
            TokenKind::Int(0),
            TokenKind::DotDot,
            TokenKind::Int(10),
            TokenKind::Eof
        ]
    );
    assert_eq!(
        tokenize_kinds("0..=10"),
        vec![
            TokenKind::Int(0),
            TokenKind::DotDotEq,
            TokenKind::Int(10),
            TokenKind::Eof
        ]
    );
}

#[test]
fn trailing_dot_before_identifier_is_malformed() {
    assert_eq!(
        kinds_of_errors("1.foo"),
        vec![LexErrorKind::MalformedNumber]
    );
}

#[test]
fn dangling_exponent_marker_is_not_consumed() {
    // `1e` is an integer followed by an identifier, not a broken float.
    assert_eq!(
        tokenize_kinds("1e"),
        vec![
            TokenKind::Int(1),
            TokenKind::Ident("e".into()),
            TokenKind::Eof
        ]
    );
    assert!(tokenize("1e").1.is_empty());
}

// ------------------------------------------------------------------- strings

#[test]
fn plain_string() {
    assert_eq!(
        tokenize_kinds("\"hello\""),
        vec![TokenKind::Str("hello".into()), TokenKind::Eof]
    );
}

#[test]
fn empty_string() {
    assert_eq!(
        tokenize_kinds("\"\""),
        vec![TokenKind::Str(String::new()), TokenKind::Eof]
    );
}

#[test]
fn escape_sequences() {
    let src = r#""a\nb\tc\\d\"e\0f""#;
    assert_eq!(
        tokenize_kinds(src),
        vec![TokenKind::Str("a\nb\tc\\d\"e\0f".into()), TokenKind::Eof]
    );
}

#[test]
fn hex_escapes() {
    assert_eq!(
        tokenize_kinds(r#""\x41\x62""#),
        vec![TokenKind::Str("Ab".into()), TokenKind::Eof]
    );
}

#[test]
fn bad_hex_escape_is_reported() {
    assert_eq!(
        kinds_of_errors(r#""\xZZ""#),
        vec![LexErrorKind::InvalidHexEscape]
    );
    assert_eq!(
        kinds_of_errors(r#""\x4""#),
        vec![LexErrorKind::InvalidHexEscape]
    );
}

#[test]
fn unknown_escape_is_reported_but_recovers() {
    let (tokens, errors) = tokenize(r#""a\qb""#);
    assert_eq!(errors.len(), 1);
    assert_eq!(errors[0].kind, LexErrorKind::InvalidEscape('q'));
    assert_eq!(tokens[0].kind, TokenKind::Str("aqb".into()));
}

#[test]
fn unterminated_string_at_eof() {
    let (tokens, errors) = tokenize("\"oops");
    assert_eq!(errors.len(), 1);
    assert_eq!(errors[0].kind, LexErrorKind::UnterminatedString);
    assert_eq!(tokens[0].kind, TokenKind::Str("oops".into()));
}

#[test]
fn unterminated_string_stops_at_newline_and_recovers() {
    let (tokens, errors) = tokenize("\"oops\nlet");
    assert_eq!(errors.len(), 1);
    assert_eq!(errors[0].kind, LexErrorKind::UnterminatedString);
    // Scanning continues on the next line.
    assert_eq!(tokens[1].kind, TokenKind::Let);
}

// ------------------------------------------------------------ further cases

#[test]
fn float_text_drops_separators() {
    assert_eq!(
        tokenize_kinds("1_0.2_5e1_0"),
        vec![TokenKind::Float("10.25e10".into()), TokenKind::Eof]
    );
    assert_eq!(single_float("1_0.2_5"), 10.25);
}

#[test]
fn largest_integer_fits_and_one_more_overflows() {
    assert_eq!(
        tokenize_kinds("9223372036854775807"),
        vec![TokenKind::Int(i64::MAX), TokenKind::Eof]
    );
    let (tokens, errors) = tokenize("9223372036854775808");
    assert_eq!(errors.len(), 1);
    assert_eq!(errors[0].kind, LexErrorKind::IntegerOverflow);
    assert_eq!(errors[0].span, nex::Span::new(0, 19));
    // An overflowing literal still yields a token, with the value 0.
    assert_eq!(tokens[0].kind, TokenKind::Int(0));
}

#[test]
fn octal_prefix_without_digits_and_binary_with_bad_digit() {
    assert_eq!(kinds_of_errors("0o"), vec![LexErrorKind::MalformedNumber]);
    assert_eq!(
        tokenize_kinds("0b12"),
        vec![TokenKind::Int(1), TokenKind::Int(2), TokenKind::Eof]
    );
}

#[test]
fn exponent_sign_without_digits_is_left_alone() {
    assert_eq!(
        tokenize_kinds("2e+"),
        vec![
            TokenKind::Int(2),
            TokenKind::Ident("e".into()),
            TokenKind::Plus,
            TokenKind::Eof
        ]
    );
}

#[test]
fn dot_after_integer_then_non_digit_is_malformed_but_keeps_the_integer() {
    let (tokens, errors) = tokenize("7.x");
    assert_eq!(errors.len(), 1);
    assert_eq!(errors[0].kind, LexErrorKind::MalformedNumber);
    assert_eq!(tokens[0].kind, TokenKind::Int(7));
}

#[test]
fn every_simple_escape_and_the_carriage_return() {
    assert_eq!(
        tokenize_kinds(r#""\r\n\t\0\\\"""#),
        vec![TokenKind::Str("\r\n\t\0\\\"".into()), TokenKind::Eof]
    );
}

#[test]
fn hex_escape_is_case_insensitive() {
    assert_eq!(
        tokenize_kinds(r#""\x4a\x4A""#),
        vec![TokenKind::Str("JJ".into()), TokenKind::Eof]
    );
}

#[test]
fn strings_keep_multibyte_characters() {
    let (tokens, errors) = tokenize("\"héllo\"");
    assert!(errors.is_empty());
    assert_eq!(tokens[0].kind, TokenKind::Str("héllo".into()));
    assert_eq!(tokens[0].span, nex::Span::new(0, 8));
}

#[test]
fn dot_followed_by_a_non_digit_is_malformed() {
    for (src, next) in [
        ("1.)", TokenKind::RParen),
        ("1. x", TokenKind::Ident("x".into())),
        ("1.", TokenKind::Eof),
    ] {
        let (tokens, errors) = tokenize(src);
        assert_eq!(errors.len(), 1, "{src:?}");
        assert_eq!(errors[0].kind, LexErrorKind::MalformedNumber);
        assert_eq!(errors[0].span, nex::Span::new(0, 2));
        assert_eq!(tokens[0].kind, TokenKind::Int(1));
        assert_eq!(tokens[0].span, nex::Span::new(0, 2));
        assert_eq!(tokens[1].kind, next);
    }
    // A range is not a malformed number.
    assert!(tokenize("1..2").1.is_empty());
}
