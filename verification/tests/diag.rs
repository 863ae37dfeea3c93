use nex::{locate, render, Diagnostic, Span};

#[test]
fn locate_finds_line_and_column() {
    let src = "let x = 1;\nlet y = 2;\n";
    let (line, col, _, text) = locate(src, 15);
    assert_eq!((line, col), (2, 5));
    assert_eq!(text, "let y = 2;");
}

#[test]
fn render_points_at_the_span() {
    let src = "let x = @;\n";
    let diagnostics = vec![Diagnostic {
        message: "unexpected character `@`".into(),
        span: Span::new(8, 9),
        help: Some("remove it".into()),
    }];
    let output = render("test.nex", src, &diagnostics);
    assert!(output.contains("--> test.nex:1:9"), "{output}");
    assert!(output.contains("1 | let x = @;"), "{output}");
    assert!(output.contains("        ^"), "{output}");
    assert!(output.contains("help: remove it"), "{output}");
}

#[test]
fn render_matches_the_documented_layout() {
    let src = "fn main() @";
    let diagnostics = vec![Diagnostic {
        message: "unexpected character `@`".into(),
        span: Span::new(10, 11),
        help: None,
    }];
    assert_eq!(
        render("main.nex", src, &diagnostics),
        "error: unexpected character `@`\n  --> main.nex:1:11\n  |\n1 | fn main() @\n  |           ^\n\n"
    );
}

#[test]
fn locate_clamps_past_the_end_and_reports_the_line_start() {
    let src = "ab\ncd";
    assert_eq!(locate(src, 99), (2, 3, 3, "cd".to_string()));
    assert_eq!(locate(src, 0), (1, 1, 0, "ab".to_string()));
    assert_eq!(locate(src, 2), (1, 3, 0, "ab".to_string()));
    assert_eq!(locate(src, 3), (2, 1, 3, "cd".to_string()));
}

#[test]
fn locate_counts_columns_in_characters() {
    let src = "é = @";
    // `@` is at byte 5 but is the fifth character.
    assert_eq!(locate(src, 5), (1, 5, 0, "é = @".to_string()));
}

#[test]
fn caret_is_clamped_to_the_line_and_the_gutter_widens() {
    let mut src = String::new();
    for _ in 0..9 {
        src.push_str("x\n");
    }
    src.push_str("\"abc\ny");
    let diagnostics = vec![Diagnostic {
        message: "unterminated string literal".into(),
        span: Span::new(18, 24),
        help: Some("add a closing `\"`".into()),
    }];
    assert_eq!(
        render("f.nex", &src, &diagnostics),
        "error: unterminated string literal\n  --> f.nex:10:1\n   |\n10 | \"abc\n   | ^^^^\n   = help: add a closing `\"`\n\n"
    );
}

#[test]
fn an_empty_span_still_gets_one_caret_and_several_diagnostics_follow_each_other() {
    let src = "a\nb";
    let diagnostics = vec![
        Diagnostic { message: "one".into(), span: Span::new(1, 1), help: None },
        Diagnostic { message: "two".into(), span: Span::new(2, 3), help: None },
    ];
    assert_eq!(
        render("p", src, &diagnostics),
        "error: one\n  --> p:1:2\n  |\n1 | a\n  |  ^\n\nerror: two\n  --> p:2:1\n  |\n2 | b\n  | ^\n\n"
    );
}

#[test]
fn rendering_a_list_is_rendering_each_in_turn() {
    let src = "a @\nb #";
    let one = Diagnostic { message: "one".into(), span: Span::new(2, 3), help: None };
    let two = Diagnostic {
        message: "two".into(),
        span: Span::new(6, 7),
        help: Some("h".into()),
    };
    let both = vec![
        Diagnostic { message: "one".into(), span: Span::new(2, 3), help: None },
        Diagnostic { message: "two".into(), span: Span::new(6, 7), help: Some("h".into()) },
    ];
    let first = render("f", src, &[one]);
    let second = render("f", src, &[two]);
    assert_eq!(render("f", src, &both), format!("{first}{second}"));
    assert_eq!(render("f", src, &[]), "");
}
