use nex::{dump_tokens, render_dump, token_line, tokenize, Span, Token, TokenKind};

fn dump(src: &str, float_text: &str) -> String {
    let (tokens, errors) = tokenize(src);
    let floats: Vec<String> = tokens
        .iter()
        .map(|t| match &t.kind {
            TokenKind::Float(_) => float_text.to_string(),
            _ => String::new(),
        })
        .collect();
    render_dump(&tokens, &errors, &floats)
}

#[test]
fn hello_world_listing_matches_the_documented_output() {
    // The first line is a 31-character comment, so `fn` starts at byte 32.
    let src = "// prints a greeting, then exit\nfn main() {\n    print(\"hello, world\");\n}\n";
    assert_eq!(src.find("fn"), Some(32));
    assert_eq!(
        dump(src, ""),
        "Fn@32..34\nIdent(\"main\")@35..39\nLParen@39..40\nRParen@40..41\nLBrace@42..43\n\
         Ident(\"print\")@48..53\nLParen@53..54\nStr(\"hello, world\")@54..68\nRParen@68..69\n\
         Semi@69..70\nRBrace@71..72\nEof@73..73\n"
    );
}

#[test]
fn errors_follow_the_tokens() {
    assert_eq!(
        dump("let x = 1.foo; @ \"oops", ""),
        "Let@0..3\nIdent(\"x\")@4..5\nEq@6..7\nInt(1)@8..10\nIdent(\"foo\")@10..13\nSemi@13..14\n\
         Str(\"oops\")@17..22\nEof@22..22\n\n-- errors --\n\
         malformed numeric literal@8..10\nunexpected character `@`@15..16\n\
         unterminated string literal@17..22\n"
    );
}

#[test]
fn float_lines_use_the_given_text() {
    assert_eq!(dump("2.5e-3", "0.0025"), "Float(0.0025)@0..6\nEof@6..6\n");
}

#[test]
fn literal_lines_quote_and_escape() {
    let t = Token::new(TokenKind::Str("a\"\n".into()), Span::new(0, 7));
    assert_eq!(token_line(&t, ""), "Str(\"a\\\"\\n\")@0..7");
    let t = Token::new(TokenKind::Int(-5), Span::new(1, 2));
    assert_eq!(token_line(&t, ""), "Int(-5)@1..2");
    let t = Token::new(TokenKind::DotDotEq, Span::new(2, 5));
    assert_eq!(token_line(&t, ""), "DotDotEq@2..5");
}

/// The debug form of a float literal's value, as `nex lex` shows it.
fn float_debug(text: &str) -> String {
    format!("{:?}", text.parse::<f64>().unwrap())
}

#[test]
fn dump_tokens_lists_tokens_then_errors() {
    assert_eq!(
        dump_tokens("let x = 1.foo; @ \"oops", float_debug),
        dump("let x = 1.foo; @ \"oops", "")
    );
    assert_eq!(dump_tokens("", float_debug), "Eof@0..0\n");
}

#[test]
fn dump_tokens_shows_float_values() {
    assert_eq!(
        dump_tokens("1e10 2.5e-3 1_0.5", float_debug),
        "Float(10000000000.0)@0..4\nFloat(0.0025)@5..11\nFloat(10.5)@12..17\nEof@17..17\n"
    );
}
