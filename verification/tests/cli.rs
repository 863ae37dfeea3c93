use nex::cli::{lex_diagnostics, lex_failure, run, unimplemented};
use nex::{tokenize, Command, LexError, LexErrorKind, Span};

#[test]
fn lex_is_the_one_working_subcommand() {
    assert_eq!(
        run(Command::Lex { file: "examples/hello.nex".into() }),
        Ok("examples/hello.nex".to_string())
    );
}

#[test]
fn every_other_subcommand_names_its_phase() {
    assert_eq!(
        run(Command::Build { file: "a.nex".into(), out: None }),
        Err("`build` is not implemented yet; it arrives in Phase 8 (LLVM backend)".to_string())
    );
    assert_eq!(
        run(Command::Run { file: "a.nex".into() }),
        Err("`run` is not implemented yet; it arrives in Phase 5 (interpreter)".to_string())
    );
    assert_eq!(
        run(Command::Check { file: "a.nex".into() }),
        Err("`check` is not implemented yet; it arrives in Phase 6 (type checker)".to_string())
    );
    assert_eq!(
        run(Command::Fmt { files: vec![], check: true }),
        Err("`fmt` is not implemented yet; it arrives in Phase 15 (formatter)".to_string())
    );
    assert_eq!(
        run(Command::Test { filter: Some("x".into()) }),
        Err("`test` is not implemented yet; it arrives in Phase 10 (stdlib + test runner)"
            .to_string())
    );
}

#[test]
fn unimplemented_message_shape() {
    assert_eq!(unimplemented("a", "b"), "`a` is not implemented yet; it arrives in b");
}

#[test]
fn failure_message_counts_the_errors() {
    assert_eq!(lex_failure(3, "main.nex"), "3 lexical error(s) in main.nex");
    assert_eq!(lex_failure(0, "x"), "0 lexical error(s) in x");
    assert_eq!(lex_failure(12, "dir/f.nex"), "12 lexical error(s) in dir/f.nex");
}

#[test]
fn each_lexing_error_becomes_a_diagnostic() {
    let (_, errors) = tokenize("@ \"x");
    let ds = lex_diagnostics(&errors);
    assert_eq!(ds.len(), 2);
    assert_eq!(ds[0].message, "unexpected character `@`");
    assert_eq!(ds[0].span, Span::new(0, 1));
    assert_eq!(ds[0].help, None);
    assert_eq!(ds[1].message, "unterminated string literal");
    assert_eq!(ds[1].span, Span::new(2, 4));
    assert_eq!(ds[1].help, Some("add a closing `\"`".to_string()));
    let overflow = vec![LexError::new(LexErrorKind::IntegerOverflow, Span::new(0, 20))];
    let ds = lex_diagnostics(&overflow);
    assert_eq!(ds[0].help, Some("the maximum is 9223372036854775807".to_string()));
}

fn float_debug(text: &str) -> String {
    format!("{:?}", text.parse::<f64>().unwrap())
}

#[test]
fn lex_report_lists_tokens_and_fails_on_errors() {
    let (out, failure) = nex::cli::lex_report("ok.nex", "x = 2.5e1;", float_debug);
    assert_eq!(out, "Ident(\"x\")@0..1\nEq@2..3\nFloat(25.0)@4..9\nSemi@9..10\nEof@10..10\n");
    assert_eq!(failure, None);

    let (out, failure) = nex::cli::lex_report("main.nex", "fn main() @", float_debug);
    assert_eq!(
        out,
        "Fn@0..2\nIdent(\"main\")@3..7\nLParen@7..8\nRParen@8..9\nEof@11..11\n"
    );
    let (report, message) = failure.unwrap();
    assert_eq!(
        report,
        "error: unexpected character `@`\n  --> main.nex:1:11\n  |\n1 | fn main() @\n  |           ^\n\n"
    );
    assert_eq!(message, "1 lexical error(s) in main.nex");
}
