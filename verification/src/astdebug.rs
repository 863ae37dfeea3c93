//! The debug forms of syntax-tree nodes: each node shows as its type's name
//! and fields, with ids, node infos, spans and spanned values in their compact
//! forms (`#0`, `#0@3..7`, `3..7`, `"x"@4..5`). A float literal shows as the
//! caller's rendering of its value.

use vstd::prelude::*;
use crate::expr::{BinaryOp, Block, Expr, ExprKind, FieldInit, MatchArm, UnaryOp};
use crate::fmt::{int_text, push_int};
use crate::node::{node_id_text, Ident, NodeInfo, Spanned};
use crate::pattern::{Pattern, PatternKind};
use crate::quote::debug_quoted;
use crate::span::span_text;
use crate::stmt::{Stmt, StmtKind};
use crate::text::{push_char, push_str};

verus! {

/// `id@span`.
pub open spec fn info_text(i: NodeInfo) -> Seq<char> {
    node_id_text(i.id) + seq!['@'] + span_text(i.span)
}

/// `"name"@span`.
pub open spec fn ident_text(i: Ident) -> Seq<char> {
    debug_quoted(i.value@) + seq!['@'] + span_text(i.span)
}

/// The name of a unary operator.
pub open spec fn unary_name(op: UnaryOp) -> Seq<char> {
    match op {
        UnaryOp::Neg => "Neg"@,
        UnaryOp::Not => "Not"@,
    }
}

/// The name of a binary operator.
pub open spec fn binary_name(op: BinaryOp) -> Seq<char> {
    match op {
        BinaryOp::Or => "Or"@,
        BinaryOp::And => "And"@,
        BinaryOp::Eq => "Eq"@,
        BinaryOp::Ne => "Ne"@,
        BinaryOp::Lt => "Lt"@,
        BinaryOp::Le => "Le"@,
        BinaryOp::Gt => "Gt"@,
        BinaryOp::Ge => "Ge"@,
        BinaryOp::BitOr => "BitOr"@,
        BinaryOp::BitXor => "BitXor"@,
        BinaryOp::BitAnd => "BitAnd"@,
        BinaryOp::Shl => "Shl"@,
        BinaryOp::Shr => "Shr"@,
        BinaryOp::Add => "Add"@,
        BinaryOp::Sub => "Sub"@,
        BinaryOp::Mul => "Mul"@,
        BinaryOp::Div => "Div"@,
        BinaryOp::Rem => "Rem"@,
    }
}

/// `true` or `false`.
pub open spec fn bool_text(b: bool) -> Seq<char> {
    if b { "true"@ } else { "false"@ }
}

/// The debug form of a pattern.
pub open spec fn pattern_text(p: Pattern) -> Seq<char> {
    "Pattern { info: "@ + info_text(p.info) + ", kind: "@ + match p.kind {
        PatternKind::Wildcard => "Wildcard"@,
        PatternKind::Binding(i) => "Binding("@ + ident_text(i) + ")"@,
    } + " }"@
}

/// `show` turns the text of any float literal into how its value shows, and
/// gives the same result for the same text.
#[verifier::opaque]
pub open spec fn renders_floats<F: Fn(&str) -> String>(show: F) -> bool {
    &&& forall|a: &str| #[trigger] show.requires((a,))
    &&& forall|a: &str, b: &str, o: String, p: String|
        #![trigger show.ensures((a,), o), show.ensures((b,), p)]
        show.ensures((a,), o) && show.ensures((b,), p) && a@ == b@ ==> o@ == p@
}

/// How `show` shows the float literal whose text is `text`.
pub open spec fn float_form<F: Fn(&str) -> String>(show: F, text: Seq<char>) -> Seq<char> {
    let (a, o) = choose|a: &str, o: String| a@ == text && #[trigger] show.ensures((a,), o);
    o@
}

proof fn lemma_show_callable<F: Fn(&str) -> String>(show: F, a: &str)
    requires
        renders_floats(show),
    ensures
        show.requires((a,)),
{
    reveal(renders_floats);
}

proof fn lemma_float_form<F: Fn(&str) -> String>(show: F, a: &str, o: String)
    requires
        renders_floats(show),
        show.ensures((a,), o),
    ensures
        float_form(show, a@) == o@,
{
    reveal(renders_floats);
    let t = a@;
    assert(exists|a2: &str, o2: String| a2@ == t && #[trigger] show.ensures((a2,), o2));
    let (a2, o2) = choose|a2: &str, o2: String| a2@ == t && #[trigger] show.ensures((a2,), o2);
    assert(show.ensures((a2,), o2));
}

/// The debug form of an expression.
pub open spec fn expr_text<F: Fn(&str) -> String>(e: Expr, show: F) -> Seq<char>
    decreases e,
{
    "Expr { info: "@ + info_text(e.info) + ", kind: "@ + kind_text(e.kind, show) + " }"@
}

/// The debug form of an expression's kind.
pub open spec fn kind_text<F: Fn(&str) -> String>(k: ExprKind, show: F) -> Seq<char>
    decreases k,
{
    match k {
        ExprKind::Int(v) => "Int("@ + int_text(v as int) + ")"@,
        ExprKind::Float(t) => "Float("@ + float_form(show, t@) + ")"@,
        ExprKind::Str(s) => "Str("@ + debug_quoted(s@) + ")"@,
        ExprKind::Bool(b) => "Bool("@ + bool_text(b) + ")"@,
        ExprKind::Unit => "Unit"@,
        ExprKind::Ident(i) => "Ident("@ + ident_text(i) + ")"@,
        ExprKind::Unary { op, operand } => "Unary { op: "@ + unary_name(op.value) + seq!['@'] + span_text(
            op.span,
        ) + ", operand: "@ + expr_text(*operand, show) + " }"@,
        ExprKind::Binary { op, lhs, rhs } => "Binary { op: "@ + binary_name(op.value) + seq!['@']
            + span_text(op.span) + ", lhs: "@ + expr_text(*lhs, show) + ", rhs: "@ + expr_text(*rhs, show) + " }"@,
        ExprKind::Call { callee, args } => "Call { callee: "@ + expr_text(*callee, show) + ", args: ["@
            + exprs_text(args@, show) + "] }"@,
        ExprKind::Field { base, field } => "Field { base: "@ + expr_text(*base, show) + ", field: "@
            + ident_text(field) + " }"@,
        ExprKind::Index { base, index } => "Index { base: "@ + expr_text(*base, show) + ", index: "@
            + expr_text(*index, show) + " }"@,
        ExprKind::StructLit { name, fields } => "StructLit { name: "@ + ident_text(name) + ", fields: ["@
            + fields_text(fields@, show) + "] }"@,
        ExprKind::If { cond, then, else_ } => "If { cond: "@ + expr_text(*cond, show) + ", then: "@ + expr_text(*then, show)
            + ", else_: "@ + match else_ {
            Some(e) => "Some("@ + expr_text(*e, show) + ")"@,
            None => "None"@,
        } + " }"@,
        ExprKind::Block(b) => "Block("@ + block_text(b, show) + ")"@,
        ExprKind::Match { scrutinee, arms } => "Match { scrutinee: "@ + expr_text(*scrutinee, show)
            + ", arms: ["@ + arms_text(arms@, show) + "] }"@,
        ExprKind::Range { start, end, inclusive } => "Range { start: "@ + expr_text(*start, show) + ", end: "@
            + expr_text(*end, show) + ", inclusive: "@ + bool_text(inclusive) + " }"@,
    }
}

/// Expressions separated by `, `.
pub open spec fn exprs_text<F: Fn(&str) -> String>(s: Seq<Expr>, show: F) -> Seq<char>
    decreases s,
{
    if s.len() == 0 {
        Seq::empty()
    } else if s.len() == 1 {
        expr_text(s[0], show)
    } else {
        exprs_text(s.drop_last(), show) + ", "@ + expr_text(s.last(), show)
    }
}

/// The debug form of a struct literal's field.
pub open spec fn field_text<F: Fn(&str) -> String>(f: FieldInit, show: F) -> Seq<char>
    decreases f,
{
    "FieldInit { info: "@ + info_text(f.info) + ", name: "@ + ident_text(f.name) + ", value: "@
        + expr_text(f.value, show) + " }"@
}

/// Struct literal fields separated by `, `.
pub open spec fn fields_text<F: Fn(&str) -> String>(s: Seq<FieldInit>, show: F) -> Seq<char>
    decreases s,
{
    if s.len() == 0 {
        Seq::empty()
    } else if s.len() == 1 {
        field_text(s[0], show)
    } else {
        fields_text(s.drop_last(), show) + ", "@ + field_text(s.last(), show)
    }
}

/// The debug form of a block.
pub open spec fn block_text<F: Fn(&str) -> String>(b: Block, show: F) -> Seq<char>
    decreases b,
{
    "Block { info: "@ + info_text(b.info) + ", stmts: ["@ + stmts_text(b.stmts@, show) + "] }"@
}

/// The debug form of a statement.
pub open spec fn stmt_text<F: Fn(&str) -> String>(s: Stmt, show: F) -> Seq<char>
    decreases s,
{
    "Stmt { info: "@ + info_text(s.info) + ", kind: "@ + match s.kind {
        StmtKind::Expr(e) => "Expr("@ + expr_text(e, show) + ")"@,
    } + " }"@
}

/// Statements separated by `, `.
pub open spec fn stmts_text<F: Fn(&str) -> String>(s: Seq<Stmt>, show: F) -> Seq<char>
    decreases s,
{
    if s.len() == 0 {
        Seq::empty()
    } else if s.len() == 1 {
        stmt_text(s[0], show)
    } else {
        stmts_text(s.drop_last(), show) + ", "@ + stmt_text(s.last(), show)
    }
}

/// The debug form of a match arm.
pub open spec fn arm_text<F: Fn(&str) -> String>(a: MatchArm, show: F) -> Seq<char>
    decreases a,
{
    "MatchArm { info: "@ + info_text(a.info) + ", pattern: "@ + pattern_text(a.pattern) + ", body: "@
        + expr_text(a.body, show) + " }"@
}

/// Match arms separated by `, `.
pub open spec fn arms_text<F: Fn(&str) -> String>(s: Seq<MatchArm>, show: F) -> Seq<char>
    decreases s,
{
    if s.len() == 0 {
        Seq::empty()
    } else if s.len() == 1 {
        arm_text(s[0], show)
    } else {
        arms_text(s.drop_last(), show) + ", "@ + arm_text(s.last(), show)
    }
}

fn push_info(out: &mut String, i: NodeInfo)
    ensures
        final(out)@ == old(out)@ + info_text(i),
{
    let t = i.to_debug_string();
    push_str(out, t.as_str());
}

fn push_ident(out: &mut String, i: &Ident)
    ensures
        final(out)@ == old(out)@ + ident_text(*i),
{
    let t = i.to_debug_string();
    push_str(out, t.as_str());
}

fn push_bool(out: &mut String, b: bool)
    ensures
        final(out)@ == old(out)@ + bool_text(b),
{
    if b {
        push_str(out, "true");
    } else {
        push_str(out, "false");
    }
}

fn unary_name_str(op: UnaryOp) -> (r: &'static str)
    ensures
        r@ == unary_name(op),
{
    match op {
        UnaryOp::Neg => "Neg",
        UnaryOp::Not => "Not",
    }
}

fn binary_name_str(op: BinaryOp) -> (r: &'static str)
    ensures
        r@ == binary_name(op),
{
    match op {
        BinaryOp::Or => "Or",
        BinaryOp::And => "And",
        BinaryOp::Eq => "Eq",
        BinaryOp::Ne => "Ne",
        BinaryOp::Lt => "Lt",
        BinaryOp::Le => "Le",
        BinaryOp::Gt => "Gt",
        BinaryOp::Ge => "Ge",
        BinaryOp::BitOr => "BitOr",
        BinaryOp::BitXor => "BitXor",
        BinaryOp::BitAnd => "BitAnd",
        BinaryOp::Shl => "Shl",
        BinaryOp::Shr => "Shr",
        BinaryOp::Add => "Add",
        BinaryOp::Sub => "Sub",
        BinaryOp::Mul => "Mul",
        BinaryOp::Div => "Div",
        BinaryOp::Rem => "Rem",
    }
}

fn push_pattern(out: &mut String, p: &Pattern)
    ensures
        final(out)@ == old(out)@ + pattern_text(*p),
{
    let ghost o = out@;
    push_str(out, "Pattern { info: ");
    push_info(out, p.info);
    push_str(out, ", kind: ");
    match &p.kind {
        PatternKind::Wildcard => push_str(out, "Wildcard"),
        PatternKind::Binding(i) => {
            push_str(out, "Binding(");
            push_ident(out, i);
            push_str(out, ")");
        },
    }
    push_str(out, " }");
    assert(out@ =~= o + pattern_text(*p));
}

fn push_expr<F: Fn(&str) -> String>(out: &mut String, e: &Expr, show: &F)
    requires
        renders_floats(*show),
    ensures
        final(out)@ == old(out)@ + expr_text(*e, *show),
    decreases e, 2nat,
{
    let ghost o = out@;
    push_str(out, "Expr { info: ");
    push_info(out, e.info);
    push_str(out, ", kind: ");
    push_kind(out, &e.kind, show);
    push_str(out, " }");
    assert(out@ =~= o + expr_text(*e, *show));
}

#[verifier::spinoff_prover]
fn push_kind<F: Fn(&str) -> String>(out: &mut String, k: &ExprKind, show: &F)
    requires
        renders_floats(*show),
    ensures
        final(out)@ == old(out)@ + kind_text(*k, *show),
    decreases k, 1nat,
{
    let ghost o = out@;
    match k {
        ExprKind::Int(v) => {
            push_str(out, "Int(");
            push_int(out, *v);
            push_str(out, ")");
            assert(out@ =~= o + kind_text(*k, *show));
        },
        ExprKind::Float(t) => {
            push_str(out, "Float(");
            let a = t.as_str();
            proof {
                lemma_show_callable(*show, a);
            }
            let shown = show(a);
            proof {
                lemma_float_form(*show, a, shown);
            }
            push_str(out, shown.as_str());
            push_str(out, ")");
            assert(out@ =~= o + kind_text(*k, *show));
        },
        ExprKind::Str(t) => {
            push_str(out, "Str(");
            let q = crate::quote::quote(t.as_str());
            push_str(out, q.as_str());
            push_str(out, ")");
            assert(out@ =~= o + kind_text(*k, *show));
        },
        ExprKind::Bool(b) => {
            push_str(out, "Bool(");
            push_bool(out, *b);
            push_str(out, ")");
            assert(out@ =~= o + kind_text(*k, *show));
        },
        ExprKind::Unit => {
            push_str(out, "Unit");
            assert(out@ =~= o + kind_text(*k, *show));
        },
        ExprKind::Ident(i) => {
            push_str(out, "Ident(");
            push_ident(out, i);
            push_str(out, ")");
            assert(out@ =~= o + kind_text(*k, *show));
        },
        _ => {
            if matches!(k, ExprKind::Unary { .. } | ExprKind::Binary { .. } | ExprKind::Call { .. }
                | ExprKind::Field { .. } | ExprKind::Index { .. }) {
                push_operations(out, k, show);
            } else if matches!(k, ExprKind::StructLit { .. } | ExprKind::Block(_) | ExprKind::Match { .. }) {
                push_structures(out, k, show);
            } else if matches!(k, ExprKind::If { .. }) {
                push_if(out, k, show);
            } else {
                push_range(out, k, show);
            }
        },
    }
}

#[verifier::spinoff_prover]
fn push_operations<F: Fn(&str) -> String>(out: &mut String, k: &ExprKind, show: &F)
    requires
        renders_floats(*show),
        k is Unary || k is Binary || k is Call || k is Field || k is Index,
    ensures
        final(out)@ == old(out)@ + kind_text(*k, *show),
    decreases k, 0nat,
{
    let ghost o = out@;
    match k {
        ExprKind::Unary { op, operand } => {
            push_str(out, "Unary { op: ");
            push_str(out, unary_name_str(op.value));
            push_char(out, '@');
            let t = op.span.to_debug_string();
            push_str(out, t.as_str());
            push_str(out, ", operand: ");
            push_expr(out, operand, show);
            push_str(out, " }");
            assert(out@ =~= o + kind_text(*k, *show));
        },
        ExprKind::Binary { op, lhs, rhs } => {
            push_str(out, "Binary { op: ");
            push_str(out, binary_name_str(op.value));
            push_char(out, '@');
            let t = op.span.to_debug_string();
            push_str(out, t.as_str());
            push_str(out, ", lhs: ");
            push_expr(out, lhs, show);
            push_str(out, ", rhs: ");
            push_expr(out, rhs, show);
            push_str(out, " }");
            assert(out@ =~= o + kind_text(*k, *show));
        },
        ExprKind::Call { callee, args } => {
            push_str(out, "Call { callee: ");
            push_expr(out, callee, show);
            push_str(out, ", args: [");
            push_exprs(out, args, show);
            push_str(out, "] }");
            assert(out@ =~= o + kind_text(*k, *show));
        },
        ExprKind::Field { base, field } => {
            push_str(out, "Field { base: ");
            push_expr(out, base, show);
            push_str(out, ", field: ");
            push_ident(out, field);
            push_str(out, " }");
            assert(out@ =~= o + kind_text(*k, *show));
        },
        ExprKind::Index { base, index } => {
            push_str(out, "Index { base: ");
            push_expr(out, base, show);
            push_str(out, ", index: ");
            push_expr(out, index, show);
            push_str(out, " }");
            assert(out@ =~= o + kind_text(*k, *show));
        },
        _ => {},
    }
}

#[verifier::spinoff_prover]
fn push_structures<F: Fn(&str) -> String>(out: &mut String, k: &ExprKind, show: &F)
    requires
        renders_floats(*show),
        k is StructLit || k is Block || k is Match,
    ensures
        final(out)@ == old(out)@ + kind_text(*k, *show),
    decreases k, 0nat,
{
    let ghost o = out@;
    match k {
        ExprKind::StructLit { name, fields } => {
            push_str(out, "StructLit { name: ");
            push_ident(out, name);
            push_str(out, ", fields: [");
            push_fields(out, fields, show);
            push_str(out, "] }");
            assert(out@ =~= o + kind_text(*k, *show));
        },
        ExprKind::Block(b) => {
            push_str(out, "Block(");
            push_block(out, b, show);
            push_str(out, ")");
            assert(out@ =~= o + kind_text(*k, *show));
        },
        ExprKind::Match { scrutinee, arms } => {
            push_str(out, "Match { scrutinee: ");
            push_expr(out, scrutinee, show);
            push_str(out, ", arms: [");
            push_arms(out, arms, show);
            push_str(out, "] }");
            assert(out@ =~= o + kind_text(*k, *show));
        },
        _ => {},
    }
}

#[verifier::spinoff_prover]
fn push_if<F: Fn(&str) -> String>(out: &mut String, k: &ExprKind, show: &F)
    requires
        renders_floats(*show),
        k is If,
    ensures
        final(out)@ == old(out)@ + kind_text(*k, *show),
    decreases k, 0nat,
{
    let ghost o = out@;
    match k {
        ExprKind::If { cond, then, else_ } => {
            push_str(out, "If { cond: ");
            push_expr(out, cond, show);
            push_str(out, ", then: ");
            push_expr(out, then, show);
            push_str(out, ", else_: ");
            let ghost head = out@;
            assert(head =~= o + "If { cond: "@ + expr_text(**cond, *show) + ", then: "@ + expr_text(
                **then,
                *show,
            ) + ", else_: "@);
            let ghost tail = match else_ {
                Some(e) => "Some("@ + expr_text(**e, *show) + ")"@,
                None => "None"@,
            };
            match else_ {
                Some(e) => {
                    push_str(out, "Some(");
                    push_expr(out, e, show);
                    push_str(out, ")");
                    assert(out@ =~= head + tail);
                },
                None => {
                    push_str(out, "None");
                    assert(out@ =~= head + tail);
                },
            }
            push_str(out, " }");
            assert(out@ =~= o + kind_text(*k, *show));
        },
        _ => {},
    }
}

#[verifier::spinoff_prover]
fn push_range<F: Fn(&str) -> String>(out: &mut String, k: &ExprKind, show: &F)
    requires
        renders_floats(*show),
        k is Range,
    ensures
        final(out)@ == old(out)@ + kind_text(*k, *show),
    decreases k, 0nat,
{
    let ghost o = out@;
    match k {
        ExprKind::Range { start, end, inclusive } => {
            push_str(out, "Range { start: ");
            push_expr(out, start, show);
            push_str(out, ", end: ");
            push_expr(out, end, show);
            push_str(out, ", inclusive: ");
            push_bool(out, *inclusive);
            push_str(out, " }");
            assert(out@ =~= o + kind_text(*k, *show));
        },
        _ => {},
    }
}

fn push_field<F: Fn(&str) -> String>(out: &mut String, f: &FieldInit, show: &F)
    requires
        renders_floats(*show),
    ensures
        final(out)@ == old(out)@ + field_text(*f, *show),
    decreases f, 2nat,
{
    let ghost o = out@;
    push_str(out, "FieldInit { info: ");
    push_info(out, f.info);
    push_str(out, ", name: ");
    push_ident(out, &f.name);
    push_str(out, ", value: ");
    push_expr(out, &f.value, show);
    push_str(out, " }");
    assert(out@ =~= o + field_text(*f, *show));
}

fn push_block<F: Fn(&str) -> String>(out: &mut String, b: &Block, show: &F)
    requires
        renders_floats(*show),
    ensures
        final(out)@ == old(out)@ + block_text(*b, *show),
    decreases b, 2nat,
{
    let ghost o = out@;
    push_str(out, "Block { info: ");
    push_info(out, b.info);
    push_str(out, ", stmts: [");
    push_stmts(out, &b.stmts, show);
    push_str(out, "] }");
    assert(out@ =~= o + block_text(*b, *show));
}

fn push_stmt<F: Fn(&str) -> String>(out: &mut String, s: &Stmt, show: &F)
    requires
        renders_floats(*show),
    ensures
        final(out)@ == old(out)@ + stmt_text(*s, *show),
    decreases s, 2nat,
{
    let ghost o = out@;
    push_str(out, "Stmt { info: ");
    push_info(out, s.info);
    push_str(out, ", kind: ");
    match &s.kind {
        StmtKind::Expr(e) => {
            push_str(out, "Expr(");
            push_expr(out, e, show);
            push_str(out, ")");
        },
    }
    push_str(out, " }");
    assert(out@ =~= o + stmt_text(*s, *show));
}

fn push_arm<F: Fn(&str) -> String>(out: &mut String, a: &MatchArm, show: &F)
    requires
        renders_floats(*show),
    ensures
        final(out)@ == old(out)@ + arm_text(*a, *show),
    decreases a, 2nat,
{
    let ghost o = out@;
    push_str(out, "MatchArm { info: ");
    push_info(out, a.info);
    push_str(out, ", pattern: ");
    push_pattern(out, &a.pattern);
    push_str(out, ", body: ");
    push_expr(out, &a.body, show);
    push_str(out, " }");
    assert(out@ =~= o + arm_text(*a, *show));
}

fn push_exprs<F: Fn(&str) -> String>(out: &mut String, s: &Vec<Expr>, show: &F)
    requires
        renders_floats(*show),
    ensures
        final(out)@ == old(out)@ + exprs_text(s@, *show),
    decreases s, 2nat,
{
    let ghost o = out@;
    let mut i: usize = 0;
    while i < s.len()
        invariant
            i <= s.len(),
            renders_floats(*show),
            out@ == o + exprs_text(s@.take(i as int), *show),
        decreases s.len() - i,
    {
        if i > 0 {
            push_str(out, ", ");
        }
        push_expr(out, &s[i], show);
        proof {
            let t = s@.take(i + 1);
            assert(t.drop_last() =~= s@.take(i as int));
            assert(t.last() == s@[i as int]);
        }
        i = i + 1;
    }
    assert(s@.take(s@.len() as int) =~= s@);
}

fn push_fields<F: Fn(&str) -> String>(out: &mut String, s: &Vec<FieldInit>, show: &F)
    requires
        renders_floats(*show),
    ensures
        final(out)@ == old(out)@ + fields_text(s@, *show),
    decreases s, 2nat,
{
    let ghost o = out@;
    let mut i: usize = 0;
    while i < s.len()
        invariant
            i <= s.len(),
            renders_floats(*show),
            out@ == o + fields_text(s@.take(i as int), *show),
        decreases s.len() - i,
    {
        if i > 0 {
            push_str(out, ", ");
        }
        push_field(out, &s[i], show);
        proof {
            let t = s@.take(i + 1);
            assert(t.drop_last() =~= s@.take(i as int));
            assert(t.last() == s@[i as int]);
        }
        i = i + 1;
    }
    assert(s@.take(s@.len() as int) =~= s@);
}

fn push_stmts<F: Fn(&str) -> String>(out: &mut String, s: &Vec<Stmt>, show: &F)
    requires
        renders_floats(*show),
    ensures
        final(out)@ == old(out)@ + stmts_text(s@, *show),
    decreases s, 2nat,
{
    let ghost o = out@;
    let mut i: usize = 0;
    while i < s.len()
        invariant
            i <= s.len(),
            renders_floats(*show),
            out@ == o + stmts_text(s@.take(i as int), *show),
        decreases s.len() - i,
    {
        if i > 0 {
            push_str(out, ", ");
        }
        push_stmt(out, &s[i], show);
        proof {
            let t = s@.take(i + 1);
            assert(t.drop_last() =~= s@.take(i as int));
            assert(t.last() == s@[i as int]);
        }
        i = i + 1;
    }
    assert(s@.take(s@.len() as int) =~= s@);
}

fn push_arms<F: Fn(&str) -> String>(out: &mut String, s: &Vec<MatchArm>, show: &F)
    requires
        renders_floats(*show),
    ensures
        final(out)@ == old(out)@ + arms_text(s@, *show),
    decreases s, 2nat,
{
    let ghost o = out@;
    let mut i: usize = 0;
    while i < s.len()
        invariant
            i <= s.len(),
            renders_floats(*show),
            out@ == o + arms_text(s@.take(i as int), *show),
        decreases s.len() - i,
    {
        if i > 0 {
            push_str(out, ", ");
        }
        push_arm(out, &s[i], show);
        proof {
            let t = s@.take(i + 1);
            assert(t.drop_last() =~= s@.take(i as int));
            assert(t.last() == s@[i as int]);
        }
        i = i + 1;
    }
    assert(s@.take(s@.len() as int) =~= s@);
}

impl Expr {
    /// The expression's debug form: `Expr { info: #0@0..1, kind: Int(5) }`.
    /// A float literal's value shows as what `show_float` gives for its text
    /// (the debug form of the value).
    pub fn to_debug_string<F: Fn(&str) -> String>(&self, show_float: F) -> (r: String)
        requires
            renders_floats(show_float),
        ensures
            r@ == expr_text(*self, show_float),
    {
        let mut out = String::new();
        push_expr(&mut out, self, &show_float);
        assert(out@ =~= expr_text(*self, show_float));
        out
    }
}

} // verus!
