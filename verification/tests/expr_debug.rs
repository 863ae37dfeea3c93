//! Debug forms of hand-built expression trees.

use nex::{
    BinaryOp, Block, Expr, ExprKind, FieldInit, MatchArm, NodeIdGen, NodeInfo, Pattern,
    PatternKind, Span, Spanned, Stmt, StmtKind, UnaryOp,
};

/// The debug form of a float literal's value.
fn float_debug(text: &str) -> String {
    format!("{:?}", text.parse::<f64>().unwrap())
}

fn info(ids: &mut NodeIdGen, span: Span) -> NodeInfo {
    NodeInfo::new(ids.fresh(), span)
}

fn int_lit(ids: &mut NodeIdGen, v: i64, span: Span) -> Expr {
    Expr::new(ExprKind::Int(v), info(ids, span))
}

fn ident(ids: &mut NodeIdGen, name: &str, span: Span) -> Expr {
    Expr::new(
        ExprKind::Ident(Spanned::new(name.to_string(), span)),
        info(ids, span),
    )
}

#[test]
fn debug_round_trips_a_simple_node() {
    let mut ids = NodeIdGen::new();
    let expr = int_lit(&mut ids, 5, Span::new(0, 1));
    assert_eq!(expr.to_debug_string(float_debug), "Expr { info: #0@0..1, kind: Int(5) }");
}

#[test]
fn debug_round_trips_nested_nodes() {
    let mut ids = NodeIdGen::new();
    let expr = Expr::new(
        ExprKind::Unary {
            op: Spanned::new(UnaryOp::Neg, Span::new(0, 1)),
            operand: Box::new(int_lit(&mut ids, 3, Span::new(1, 2))),
        },
        info(&mut ids, Span::new(0, 2)),
    );
    assert_eq!(
        expr.to_debug_string(float_debug),
        "Expr { info: #1@0..2, kind: Unary { op: Neg@0..1, operand: Expr { info: #0@1..2, kind: Int(3) } } }"
    );
}

#[test]
fn debug_round_trips_a_range() {
    let mut ids = NodeIdGen::new();
    let expr = Expr::new(
        ExprKind::Range {
            start: Box::new(int_lit(&mut ids, 0, Span::new(0, 1))),
            end: Box::new(int_lit(&mut ids, 10, Span::new(3, 5))),
            inclusive: true,
        },
        info(&mut ids, Span::new(0, 5)),
    );
    assert_eq!(
        expr.to_debug_string(float_debug),
        "Expr { info: #2@0..5, kind: Range { start: Expr { info: #0@0..1, kind: Int(0) }, end: Expr { info: #1@3..5, kind: Int(10) }, inclusive: true } }"
    );
}

#[test]
fn unit_literal_debug() {
    let mut ids = NodeIdGen::new();
    let expr = Expr::new(ExprKind::Unit, info(&mut ids, Span::new(0, 2)));
    assert_eq!(expr.to_debug_string(float_debug), "Expr { info: #0@0..2, kind: Unit }");
}

// `f(a, "s") + p.q[0]`
#[test]
fn calls_fields_and_indexing_show_every_part() {
    let mut ids = NodeIdGen::new();
    let call = Expr::new(
        ExprKind::Call {
            callee: Box::new(ident(&mut ids, "f", Span::new(0, 1))),
            args: vec![
                ident(&mut ids, "a", Span::new(2, 3)),
                Expr::new(ExprKind::Str("s".into()), info(&mut ids, Span::new(5, 8))),
            ],
        },
        info(&mut ids, Span::new(0, 9)),
    );
    let index = Expr::new(
        ExprKind::Index {
            base: Box::new(Expr::new(
                ExprKind::Field {
                    base: Box::new(ident(&mut ids, "p", Span::new(12, 13))),
                    field: Spanned::new("q".to_string(), Span::new(14, 15)),
                },
                info(&mut ids, Span::new(12, 15)),
            )),
            index: Box::new(int_lit(&mut ids, 0, Span::new(16, 17))),
        },
        info(&mut ids, Span::new(12, 18)),
    );
    let expr = Expr::new(
        ExprKind::Binary {
            op: Spanned::new(BinaryOp::Add, Span::new(10, 11)),
            lhs: Box::new(call),
            rhs: Box::new(index),
        },
        info(&mut ids, Span::new(0, 18)),
    );
    assert_eq!(
        expr.to_debug_string(float_debug),
        "Expr { info: #8@0..18, kind: Binary { op: Add@10..11, \
         lhs: Expr { info: #3@0..9, kind: Call { callee: Expr { info: #0@0..1, kind: Ident(\"f\"@0..1) }, \
         args: [Expr { info: #1@2..3, kind: Ident(\"a\"@2..3) }, Expr { info: #2@5..8, kind: Str(\"s\") }] } }, \
         rhs: Expr { info: #7@12..18, kind: Index { base: Expr { info: #5@12..15, kind: Field { \
         base: Expr { info: #4@12..13, kind: Ident(\"p\"@12..13) }, field: \"q\"@14..15 } }, \
         index: Expr { info: #6@16..17, kind: Int(0) } } } } }"
    );
}

// `if b { P { x: 1.5 } } else { match c { v => -1 } }`
#[test]
fn blocks_statements_literals_and_matches_show_every_part() {
    let mut ids = NodeIdGen::new();
    let cond = Expr::new(ExprKind::Bool(false), info(&mut ids, Span::new(3, 4)));
    let lit = Expr::new(
        ExprKind::StructLit {
            name: Spanned::new("P".to_string(), Span::new(7, 8)),
            fields: vec![FieldInit::new(
                Spanned::new("x".to_string(), Span::new(11, 12)),
                Expr::new(ExprKind::Float("1.5".into()), info(&mut ids, Span::new(14, 17))),
                info(&mut ids, Span::new(11, 17)),
            )],
        },
        info(&mut ids, Span::new(7, 19)),
    );
    let then = Expr::new(
        ExprKind::Block(Block::new(
            vec![Stmt::new(StmtKind::Expr(lit), info(&mut ids, Span::new(7, 19)))],
            info(&mut ids, Span::new(5, 21)),
        )),
        info(&mut ids, Span::new(5, 21)),
    );
    let arm = MatchArm::new(
        Pattern::new(
            PatternKind::Binding(Spanned::new("v".to_string(), Span::new(39, 40))),
            info(&mut ids, Span::new(39, 40)),
        ),
        Expr::new(
            ExprKind::Unary {
                op: Spanned::new(UnaryOp::Not, Span::new(44, 45)),
                operand: Box::new(int_lit(&mut ids, 1, Span::new(45, 46))),
            },
            info(&mut ids, Span::new(44, 46)),
        ),
        info(&mut ids, Span::new(39, 46)),
    );
    let wild = MatchArm::new(
        Pattern::new(PatternKind::Wildcard, info(&mut ids, Span::new(48, 49))),
        Expr::new(ExprKind::Unit, info(&mut ids, Span::new(53, 55))),
        info(&mut ids, Span::new(48, 55)),
    );
    let otherwise = Expr::new(
        ExprKind::Match {
            scrutinee: Box::new(ident(&mut ids, "c", Span::new(35, 36))),
            arms: vec![arm, wild],
        },
        info(&mut ids, Span::new(29, 57)),
    );
    let expr = Expr::new(
        ExprKind::If {
            cond: Box::new(cond),
            then: Box::new(then),
            else_: Some(Box::new(otherwise)),
        },
        info(&mut ids, Span::new(0, 57)),
    );
    assert_eq!(
        expr.to_debug_string(float_debug),
        "Expr { info: #16@0..57, kind: If { cond: Expr { info: #0@3..4, kind: Bool(false) }, \
         then: Expr { info: #6@5..21, kind: Block(Block { info: #5@5..21, stmts: [Stmt { info: #4@7..19, \
         kind: Expr(Expr { info: #3@7..19, kind: StructLit { name: \"P\"@7..8, fields: [FieldInit { \
         info: #2@11..17, name: \"x\"@11..12, value: Expr { info: #1@14..17, kind: Float(1.5) } }] } }) }] }) }, \
         else_: Some(Expr { info: #15@29..57, kind: Match { scrutinee: Expr { info: #14@35..36, kind: Ident(\"c\"@35..36) }, \
         arms: [MatchArm { info: #10@39..46, pattern: Pattern { info: #7@39..40, kind: Binding(\"v\"@39..40) }, \
         body: Expr { info: #9@44..46, kind: Unary { op: Not@44..45, operand: Expr { info: #8@45..46, kind: Int(1) } } } }, \
         MatchArm { info: #13@48..55, pattern: Pattern { info: #11@48..49, kind: Wildcard }, \
         body: Expr { info: #12@53..55, kind: Unit } }] } }) } }"
    );
}

#[test]
fn if_without_else_and_empty_lists() {
    let mut ids = NodeIdGen::new();
    let expr = Expr::new(
        ExprKind::If {
            cond: Box::new(Expr::new(ExprKind::Bool(true), info(&mut ids, Span::new(3, 7)))),
            then: Box::new(Expr::new(
                ExprKind::Block(Block::new(Vec::new(), info(&mut ids, Span::new(8, 10)))),
                info(&mut ids, Span::new(8, 10)),
            )),
            else_: None,
        },
        info(&mut ids, Span::new(0, 10)),
    );
    assert_eq!(
        expr.to_debug_string(float_debug),
        "Expr { info: #3@0..10, kind: If { cond: Expr { info: #0@3..7, kind: Bool(true) }, \
         then: Expr { info: #2@8..10, kind: Block(Block { info: #1@8..10, stmts: [] }) }, else_: None } }"
    );
    let dummy = Expr::new(
        ExprKind::Call {
            callee: Box::new(Expr::new(ExprKind::Int(-7), NodeInfo::dummy(Span::new(0, 2)))),
            args: Vec::new(),
        },
        NodeInfo::dummy(Span::new(0, 4)),
    );
    assert_eq!(
        dummy.to_debug_string(float_debug),
        "Expr { info: #dummy@0..4, kind: Call { callee: Expr { info: #dummy@0..2, kind: Int(-7) }, args: [] } }"
    );
}

#[test]
fn float_literals_show_their_values() {
    let mut ids = NodeIdGen::new();
    let expr = Expr::new(ExprKind::Float("1e10".into()), info(&mut ids, Span::new(0, 4)));
    assert_eq!(
        expr.to_debug_string(float_debug),
        "Expr { info: #0@0..4, kind: Float(10000000000.0) }"
    );
    let expr = Expr::new(ExprKind::Float("2.50".into()), info(&mut ids, Span::new(0, 4)));
    assert_eq!(
        expr.to_debug_string(float_debug),
        "Expr { info: #1@0..4, kind: Float(2.5) }"
    );
}
