use nex::Span;

#[test]
fn merge_covers_both() {
    let a = Span::new(2, 5);
    let b = Span::new(10, 12);
    assert_eq!(a.merge(b), Span::new(2, 12));
    assert_eq!(b.merge(a), Span::new(2, 12));
}

#[test]
fn text_slices_source() {
    let src = "fn main";
    assert_eq!(Span::new(3, 7).text(src), "main");
}

#[test]
fn len_and_empty() {
    assert_eq!(Span::new(4, 9).len(), 5);
    assert!(Span::new(4, 4).is_empty());
}

#[test]
fn merge_of_overlapping_spans_is_their_hull() {
    assert_eq!(Span::new(3, 8).merge(Span::new(5, 6)), Span::new(3, 8));
    assert_eq!(Span::new(3, 8).merge(Span::new(5, 11)), Span::new(3, 11));
    assert_eq!(Span::new(7, 7).merge(Span::new(7, 7)), Span::new(7, 7));
}

#[test]
fn non_empty_span_is_not_empty() {
    assert!(!Span::new(4, 5).is_empty());
    assert_eq!(Span::new(0, 0).len(), 0);
}

#[test]
fn from_usize_and_range_agree() {
    let s = Span::from_usize(3, 9);
    assert_eq!(s, Span::new(3, 9));
    assert_eq!(s.range(), 3..9);
}

#[test]
fn text_of_a_span_after_a_multibyte_character() {
    let src = "é x";
    assert_eq!(Span::new(0, 2).text(src), "é");
    assert_eq!(Span::new(3, 4).text(src), "x");
    assert_eq!(Span::new(4, 4).text(src), "");
}

#[test]
fn span_debug_form_is_a_range() {
    assert_eq!(Span::new(3, 7).to_debug_string(), "3..7");
    assert_eq!(Span::new(0, 0).to_debug_string(), "0..0");
    assert_eq!(Span::new(123, 4567).to_debug_string(), "123..4567");
}

#[test]
fn span_converts_into_a_byte_range() {
    let r: std::ops::Range<usize> = Span::new(2, 5).into();
    assert_eq!(r, 2..5);
    assert_eq!(&"abcdefg"[r], "cde");
}
