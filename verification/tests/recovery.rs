use nex::{tokenize, LexErrorKind, Span, TokenKind};

/// A program in the style of the example tour: structs, enums, `const`,
/// functions, `if`/`for`/`while`, ranges, `match` and string escapes.
const SEED: &str = r#"// A tour of the planned syntax.
use std::io;

pub struct Point {
    x: i64,
    y: i64,
}

enum Shape {
    Circle(Point, i64),
    Rect { min: Point, max: Point },
}

const LIMIT: i64 = 1_000;
const MASK: i64 = 0xFF;
const RATIO: f64 = 2.5e-3;

fn area(shape: Shape) -> i64 {
    match shape {
        Shape::Circle(_, r) => 3 * r * r,
        Shape::Rect { min, max } => (max.x - min.x) * (max.y - min.y),
    }
}

fn main() {
    let mut total = 0;
    for i in 0..10 {
        if i % 2 == 0 && i != 4 {
            total += i;
        } else {
            total -= 1;
        }
    }
    while total >= LIMIT || total < 0 {
        total /= 2;
    }
    let greeting = "hello,\tw\x6Frld\n\"quoted\" \\ done";
    let flags = 0b1010 | 0o17 ^ MASK << 2 >> 1;
    let done = !false;
    print(greeting);
}
"#;

#[test]
fn unknown_characters_are_skipped_and_reported() {
    let (tokens, errors) = tokenize("let @ x");
    assert_eq!(errors.len(), 1);
    assert_eq!(errors[0].kind, LexErrorKind::UnknownChar('@'));
    assert_eq!(tokens[0].kind, TokenKind::Let);
    assert_eq!(tokens[1].kind, TokenKind::Ident("x".into()));
}

#[test]
fn multiple_errors_are_all_reported() {
    let (_, errors) = tokenize("@ # \"unterminated");
    assert_eq!(errors.len(), 3);
    assert_eq!(errors[0].kind, LexErrorKind::UnknownChar('@'));
    assert_eq!(errors[1].kind, LexErrorKind::UnknownChar('#'));
    assert_eq!(errors[2].kind, LexErrorKind::UnterminatedString);
}

#[test]
fn error_spans_point_at_the_offending_text() {
    let src = "let @ x";
    let (_, errors) = tokenize(src);
    assert_eq!(errors[0].span.text(src), "@");
}

#[test]
fn a_long_run_of_invalid_characters_does_not_overflow_the_stack() {
    let src = "@".repeat(200_000);
    let (tokens, errors) = tokenize(&src);
    assert_eq!(tokens.len(), 1);
    assert_eq!(errors.len(), 200_000);
}

/// A tiny deterministic fuzzer: mutate a known-good program in many ways and
/// require that the lexer always terminates, never panics, and always emits a
/// final `Eof` token.
#[test]
fn lexer_never_panics_on_mutated_input() {
    let seed = SEED;
    let bytes: Vec<char> = seed.chars().collect();
    let alphabet: Vec<char> = "abzZ019_\"\\'`@#$?~\n\t {}()[]<>+-*/%!=&|^.,:;"
        .chars()
        .collect();

    // xorshift so the corpus is reproducible without a dependency.
    let mut state: u64 = 0x2545_F491_4F6C_DD1D;
    let mut next = |bound: usize| -> usize {
        state ^= state << 13;
        state ^= state >> 7;
        state ^= state << 17;
        (state % bound as u64) as usize
    };

    for _ in 0..2_000 {
        let mut chars = bytes.clone();
        for _ in 0..8 {
            if chars.is_empty() {
                break;
            }
            let idx = next(chars.len());
            match next(3) {
                0 => chars[idx] = alphabet[next(alphabet.len())],
                1 => {
                    chars.remove(idx);
                }
                _ => chars.insert(idx, alphabet[next(alphabet.len())]),
            }
        }
        let src: String = chars.into_iter().collect();
        let (tokens, _errors) = tokenize(&src);
        assert_eq!(
            tokens.last().map(|t| &t.kind),
            Some(&TokenKind::Eof),
            "token stream must always end in Eof"
        );
    }
}

#[test]
fn spans_are_always_within_bounds_and_ordered() {
    let src = SEED;
    let (tokens, _) = tokenize(src);
    let mut previous_end = 0;
    for token in &tokens {
        assert!(token.span.start <= token.span.end, "{token:?}");
        assert!(token.span.end as usize <= src.len(), "{token:?}");
        assert!(
            token.span.start >= previous_end,
            "tokens must not overlap: {token:?}"
        );
        previous_end = token.span.start;
    }
}

#[test]
fn the_tour_seed_lexes_cleanly() {
    let (tokens, errors) = tokenize(SEED);
    assert!(errors.is_empty(), "{errors:?}");
    assert_eq!(tokens.last().unwrap().kind, TokenKind::Eof);
    let eofs = tokens.iter().filter(|t| t.is_eof()).count();
    assert_eq!(eofs, 1);
}

#[test]
fn error_spans_of_each_kind() {
    let (_, errors) = tokenize("\"a\\qb\" \"\\xZ\" 0x \"open");
    let got: Vec<(LexErrorKind, Span)> = errors.iter().map(|e| (e.kind, e.span)).collect();
    assert_eq!(
        got,
        vec![
            (LexErrorKind::InvalidEscape('q'), Span::new(2, 4)),
            (LexErrorKind::InvalidHexEscape, Span::new(8, 10)),
            (LexErrorKind::MalformedNumber, Span::new(13, 15)),
            (LexErrorKind::UnterminatedString, Span::new(16, 21)),
        ]
    );
}

#[test]
fn unknown_multibyte_character_spans_its_bytes() {
    let (tokens, errors) = tokenize("a → b");
    assert_eq!(errors.len(), 1);
    assert_eq!(errors[0].kind, LexErrorKind::UnknownChar('→'));
    assert_eq!(errors[0].span, Span::new(2, 5));
    assert_eq!(tokens[1].span, Span::new(6, 7));
}

#[test]
fn never_more_tokens_than_characters_plus_one() {
    for src in [SEED, "", "@@@", "a", "x+y", "..=..", "\"é\" é"] {
        let (tokens, _) = tokenize(src);
        assert!(tokens.len() <= src.chars().count() + 1, "{src:?}");
    }
    assert_eq!(tokenize("a+b").0.len(), 4);
}

#[test]
fn error_spans_fall_on_character_boundaries() {
    let src = "é → \"\\é\" 0x";
    let (_, errors) = tokenize(src);
    assert_eq!(errors.len(), 3);
    for e in &errors {
        assert!(src.is_char_boundary(e.span.start as usize));
        assert!(src.is_char_boundary(e.span.end as usize));
    }
    assert_eq!(errors[1].kind, LexErrorKind::InvalidEscape('é'));
    assert_eq!(errors[1].span.text(src), "\\é");
}
