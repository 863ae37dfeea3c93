use nex::{spanning, AstNode, HasSpan, Ident, NodeId, NodeIdGen, NodeInfo, Span, Spanned};

#[test]
fn ids_are_sequential_and_dense() {
    let mut gen = NodeIdGen::new();
    let a = gen.fresh();
    let b = gen.fresh();
    let c = gen.fresh();
    assert_eq!([a.as_u32(), b.as_u32(), c.as_u32()], [0, 1, 2]);
    assert_eq!([a.index(), b.index(), c.index()], [0, 1, 2]);
    assert_eq!(gen.allocated(), 3);
}

#[test]
fn ids_are_distinct() {
    let mut gen = NodeIdGen::new();
    let ids: Vec<NodeId> = (0..64).map(|_| gen.fresh()).collect();
    let mut sorted = ids.clone();
    sorted.sort();
    sorted.dedup();
    assert_eq!(sorted.len(), ids.len());
}

#[test]
fn ids_index_a_side_table() {
    let mut gen = NodeIdGen::new();
    let ids: Vec<NodeId> = (0..4).map(|_| gen.fresh()).collect();
    let mut types = vec!["?"; gen.allocated()];
    types[ids[2].index()] = "i32";
    assert_eq!(types, vec!["?", "?", "i32", "?"]);
}

#[test]
fn dummy_is_recognisable_and_never_allocated() {
    let mut gen = NodeIdGen::new();
    assert!(NodeId::DUMMY().is_dummy());
    assert!(!gen.fresh().is_dummy());
}

#[test]
fn debug_formats_are_compact() {
    let mut gen = NodeIdGen::new();
    let id = gen.fresh();
    assert_eq!(id.to_debug_string(), "#0");
    assert_eq!(NodeId::DUMMY().to_debug_string(), "#dummy");
    assert_eq!(
        NodeInfo::new(id, Span::new(3, 7)).to_debug_string(),
        "#0@3..7"
    );
}

#[test]
fn node_info_implements_the_traits() {
    let info = NodeInfo::new(NodeId::DUMMY(), Span::new(1, 2));
    assert_eq!(info.span(), Span::new(1, 2));
    assert_eq!(info.id(), NodeId::DUMMY());
    assert_eq!(info.info(), info);
}

#[test]
fn spanned_maps_and_keeps_its_span() {
    let ident: Ident = Spanned::new("count".to_string(), Span::new(4, 9));
    assert_eq!(ident.span(), Span::new(4, 9));
    assert_eq!(ident.to_debug_string(), "\"count\"@4..9");

    let length = ident.as_ref().map(|s| s.len());
    assert_eq!(length.value, 5);
    assert_eq!(length.span, Span::new(4, 9));
}

#[test]
fn spanning_covers_all_children() {
    let items = vec![
        Spanned::new((), Span::new(10, 12)),
        Spanned::new((), Span::new(4, 6)),
        Spanned::new((), Span::new(20, 25)),
    ];
    assert_eq!(spanning(&items, Span::new(0, 0)), Span::new(4, 25));
}

#[test]
fn spanning_uses_the_fallback_when_empty() {
    let empty: Vec<Spanned<()>> = Vec::new();
    assert_eq!(spanning(&empty, Span::new(7, 8)), Span::new(7, 8));
}

#[test]
fn spanning_a_single_child_is_its_span() {
    let one = vec![Spanned::new(1u8, Span::new(5, 9))];
    assert_eq!(spanning(&one, Span::new(0, 0)), Span::new(5, 9));
}

#[test]
fn later_ids_keep_counting_and_index_matches() {
    let mut gen = NodeIdGen::default();
    assert_eq!(gen.allocated(), 0);
    let mut last = gen.fresh();
    for _ in 0..99 {
        last = gen.fresh();
    }
    assert_eq!(last.as_u32(), 99);
    assert_eq!(last.index(), 99);
    assert_eq!(last.to_debug_string(), "#99");
    assert_eq!(gen.allocated(), 100);
}

#[test]
fn dummy_info_carries_the_dummy_id() {
    let info = NodeInfo::dummy(Span::new(2, 3));
    assert!(info.id.is_dummy());
    assert_eq!(info.span, Span::new(2, 3));
    assert_eq!(info.to_debug_string(), "#dummy@2..3");
}

#[test]
fn identifier_debug_form_escapes_its_text() {
    let ident: Ident = Spanned::new("a\"b".to_string(), Span::new(0, 4));
    assert_eq!(ident.to_debug_string(), "\"a\\\"b\"@0..4");
}

#[test]
fn a_fresh_node_info_reads_compactly() {
    let mut ids = NodeIdGen::new();
    let node = NodeInfo::new(ids.fresh(), Span::new(0, 3));
    assert_eq!(node.to_debug_string(), "#0@0..3");
}
