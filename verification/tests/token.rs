use nex::token::keyword_from_chars;
use nex::{Span, Token, TokenKind};

#[test]
fn keywords_round_trip() {
    for word in [
        "fn", "let", "mut", "if", "else", "for", "while", "return", "struct", "enum", "match",
        "use", "mod", "pub", "true", "false", "in", "break", "continue", "const", "type", "impl",
        "self",
    ] {
        let kind = TokenKind::keyword_from_str(word)
            .unwrap_or_else(|| panic!("`{word}` should be a keyword"));
        assert!(kind.is_keyword(), "`{word}` should report as a keyword");
    }
}

#[test]
fn non_keywords_are_none() {
    for word in ["main", "iff", "Self", "letx", "_", "returns"] {
        assert!(TokenKind::keyword_from_str(word).is_none(), "`{word}`");
    }
}

#[test]
fn literals_report_as_literals() {
    assert!(TokenKind::Int(1).is_literal());
    assert!(TokenKind::Float("1.0".into()).is_literal());
    assert!(TokenKind::Str("x".into()).is_literal());
    assert!(TokenKind::True.is_literal());
    assert!(!TokenKind::Ident("x".into()).is_literal());
}

#[test]
fn keyword_spellings_map_to_their_kinds() {
    assert_eq!(TokenKind::keyword_from_str("self"), Some(TokenKind::SelfValue));
    assert_eq!(TokenKind::keyword_from_str("fn"), Some(TokenKind::Fn));
    assert_eq!(TokenKind::keyword_from_str("in"), Some(TokenKind::In));
    assert_eq!(TokenKind::keyword_from_str(""), None);
    let chars: Vec<char> = "while".chars().collect();
    assert_eq!(keyword_from_chars(&chars), Some(TokenKind::While));
    let chars: Vec<char> = "whilst".chars().collect();
    assert_eq!(keyword_from_chars(&chars), None);
}

#[test]
fn false_is_a_literal_and_operators_are_neither() {
    assert!(TokenKind::False.is_literal());
    assert!(TokenKind::False.is_keyword());
    assert!(!TokenKind::Plus.is_literal());
    assert!(!TokenKind::Plus.is_keyword());
    assert!(!TokenKind::Int(3).is_keyword());
    assert!(!TokenKind::Eof.is_keyword());
}

#[test]
fn descriptions_name_the_token() {
    assert_eq!(TokenKind::Ident("x".into()).describe(), "identifier");
    assert_eq!(TokenKind::Int(1).describe(), "integer literal");
    assert_eq!(TokenKind::Eof.describe(), "end of file");
    assert_eq!(TokenKind::Fn.describe(), "`fn`");
    assert_eq!(TokenKind::SelfValue.describe(), "`self`");
    assert_eq!(TokenKind::DotDotEq.describe(), "`..=`");
}

#[test]
fn variant_names_are_the_debug_names() {
    assert_eq!(TokenKind::SelfValue.variant_name(), "SelfValue");
    assert_eq!(TokenKind::ColonColon.variant_name(), "ColonColon");
    assert_eq!(TokenKind::Eof.variant_name(), "Eof");
}

#[test]
fn eof_token_reports_itself() {
    assert!(Token::new(TokenKind::Eof, Span::new(3, 3)).is_eof());
    assert!(!Token::new(TokenKind::Semi, Span::new(2, 3)).is_eof());
}

#[test]
fn display_forms_read_like_source() {
    assert_eq!(TokenKind::Ident("count".into()).to_display_string(""), "count");
    assert_eq!(TokenKind::Int(-3).to_display_string(""), "-3");
    assert_eq!(TokenKind::Int(42).to_display_string(""), "42");
    assert_eq!(TokenKind::Float("2.5".into()).to_display_string("2.5"), "2.5");
    assert_eq!(TokenKind::Str("a\"b".into()).to_display_string(""), "\"a\\\"b\"");
    assert_eq!(TokenKind::Fn.to_display_string(""), "fn");
    assert_eq!(TokenKind::SelfValue.to_display_string(""), "self");
    assert_eq!(TokenKind::DotDotEq.to_display_string(""), "..=");
    assert_eq!(TokenKind::PipePipe.to_display_string(""), "||");
    assert_eq!(TokenKind::Eof.to_display_string(""), "end of file");
}
