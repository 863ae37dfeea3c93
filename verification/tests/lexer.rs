use nex::{tokenize, tokenize_kinds, Lexer, Span, TokenKind};

#[test]
fn empty_input_yields_only_eof() {
    let (tokens, errors) = tokenize("");
    assert_eq!(tokens.len(), 1);
    assert_eq!(tokens[0].kind, TokenKind::Eof);
    assert_eq!(tokens[0].span, Span::new(0, 0));
    assert!(errors.is_empty());
}

#[test]
fn eof_is_produced_exactly_once() {
    let mut lexer = Lexer::new("x");
    assert!(matches!(
        lexer.next_token().unwrap().kind,
        TokenKind::Ident(_)
    ));
    assert_eq!(lexer.next_token().unwrap().kind, TokenKind::Eof);
    assert!(lexer.next_token().is_none());
    assert!(lexer.next_token().is_none());
}

#[test]
fn lexer_is_an_iterator() {
    let mut lexer = Lexer::new("1 + 2");
    let mut kinds = Vec::new();
    while let Some(t) = lexer.next() {
        kinds.push(t.kind);
    }
    assert_eq!(
        kinds,
        vec![
            TokenKind::Int(1),
            TokenKind::Plus,
            TokenKind::Int(2),
            TokenKind::Eof
        ]
    );
}

#[test]
fn errors_accumulate_as_the_lexer_goes() {
    let mut lexer = Lexer::new("@ x #");
    assert!(lexer.errors().is_empty());
    let first = lexer.next_token().unwrap();
    assert_eq!(first.kind, TokenKind::Ident("x".into()));
    assert_eq!(lexer.errors().len(), 1);
    assert_eq!(lexer.next_token().unwrap().kind, TokenKind::Eof);
    let errors = lexer.into_errors();
    assert_eq!(errors.len(), 2);
    assert_eq!(errors[1].span, Span::new(4, 5));
}

#[test]
fn tokenize_kinds_drops_only_the_spans() {
    let src = "let x = \"s\" ;";
    let (tokens, _) = tokenize(src);
    let kinds: Vec<TokenKind> = tokens.into_iter().map(|t| t.kind).collect();
    assert_eq!(tokenize_kinds(src), kinds);
}

#[test]
fn a_let_statement_lexes_cleanly() {
    let (tokens, errors) = tokenize("let x = 1;");
    assert!(errors.is_empty());
    assert_eq!(tokens[0].kind, TokenKind::Let);
    assert_eq!(
        tokenize_kinds("let x = 1;"),
        vec![
            TokenKind::Let,
            TokenKind::Ident("x".into()),
            TokenKind::Eq,
            TokenKind::Int(1),
            TokenKind::Semi,
            TokenKind::Eof
        ]
    );
}
