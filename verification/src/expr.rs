//! Expressions.

use vstd::prelude::*;
use crate::node::{AstNode, HasSpan, Ident, NodeId, NodeInfo, Spanned};
use crate::pattern::Pattern;
use crate::span::Span;
use crate::stmt::Stmt;

verus! {

/// Unary operators.
#[derive(Clone, Copy, Debug, PartialEq, Eq, Structural)]
pub enum UnaryOp {
    /// `-x`
    Neg,
    /// `!x`
    Not,
}

/// Binary operators.
#[derive(Clone, Copy, Debug, PartialEq, Eq, Structural)]
pub enum BinaryOp {
    // logical
    Or,
    And,
    // comparison
    Eq,
    Ne,
    Lt,
    Le,
    Gt,
    Ge,
    // bitwise
    BitOr,
    BitXor,
    BitAnd,
    Shl,
    Shr,
    // arithmetic
    Add,
    Sub,
    Mul,
    Div,
    Rem,
}

/// A single expression node.
#[derive(Debug, PartialEq)]
pub struct Expr {
    pub info: NodeInfo,
    pub kind: ExprKind,
}

impl Expr {
    pub fn new(kind: ExprKind, info: NodeInfo) -> (r: Expr)
        ensures
            r == (Expr { info, kind }),
    {
        Expr { info, kind }
    }
}

impl HasSpan for Expr {
    open spec fn spec_span(&self) -> Span {
        self.info.span
    }

    fn span(&self) -> (r: Span) {
        self.info.span
    }
}

impl AstNode for Expr {
    open spec fn spec_id(&self) -> NodeId {
        self.info.id
    }

    fn id(&self) -> (r: NodeId) {
        self.info.id
    }
}

/// Every expression form in the language sketch.
///
/// A float literal is held as its source text, as the lexer hands it over.
#[derive(Debug, PartialEq)]
pub enum ExprKind {
    /// `5`, `1.5`, `"hi"`, `true`, `()`
    Int(i64),
    Float(String),
    Str(String),
    Bool(bool),
    Unit,
    /// a bare name
    Ident(Ident),
    /// `-x`, `!x`
    Unary { op: Spanned<UnaryOp>, operand: Box<Expr> },
    /// `a + b`
    Binary { op: Spanned<BinaryOp>, lhs: Box<Expr>, rhs: Box<Expr> },
    /// `f(x, y)`
    Call { callee: Box<Expr>, args: Vec<Expr> },
    /// `p.x`
    Field { base: Box<Expr>, field: Ident },
    /// `xs[0]`
    Index { base: Box<Expr>, index: Box<Expr> },
    /// `Point { x: 1.0, y: 2.0 }`
    StructLit { name: Ident, fields: Vec<FieldInit> },
    /// `if c { a } else { b }`; `else` optional
    If { cond: Box<Expr>, then: Box<Expr>, else_: Option<Box<Expr>> },
    /// `{ stmts }`
    Block(Block),
    /// `match x { pat => body, ... }`
    Match { scrutinee: Box<Expr>, arms: Vec<MatchArm> },
    /// `a..b`, `a..=b`
    Range { start: Box<Expr>, end: Box<Expr>, inclusive: bool },
}

/// One `name: value` entry in a struct literal.
#[derive(Debug, PartialEq)]
pub struct FieldInit {
    pub info: NodeInfo,
    pub name: Ident,
    pub value: Expr,
}

impl FieldInit {
    pub fn new(name: Ident, value: Expr, info: NodeInfo) -> (r: FieldInit)
        ensures
            r == (FieldInit { info, name, value }),
    {
        FieldInit { info, name, value }
    }
}

impl HasSpan for FieldInit {
    open spec fn spec_span(&self) -> Span {
        self.info.span
    }

    fn span(&self) -> (r: Span) {
        self.info.span
    }
}

impl AstNode for FieldInit {
    open spec fn spec_id(&self) -> NodeId {
        self.info.id
    }

    fn id(&self) -> (r: NodeId) {
        self.info.id
    }
}

/// A `{ ... }` block; its value is the last expression statement.
#[derive(Debug, PartialEq)]
pub struct Block {
    pub info: NodeInfo,
    pub stmts: Vec<Stmt>,
}

impl Block {
    pub fn new(stmts: Vec<Stmt>, info: NodeInfo) -> (r: Block)
        ensures
            r == (Block { info, stmts }),
    {
        Block { info, stmts }
    }
}

impl HasSpan for Block {
    open spec fn spec_span(&self) -> Span {
        self.info.span
    }

    fn span(&self) -> (r: Span) {
        self.info.span
    }
}

impl AstNode for Block {
    open spec fn spec_id(&self) -> NodeId {
        self.info.id
    }

    fn id(&self) -> (r: NodeId) {
        self.info.id
    }
}

/// One `pattern => body` arm of a match.
#[derive(Debug, PartialEq)]
pub struct MatchArm {
    pub info: NodeInfo,
    pub pattern: Pattern,
    pub body: Expr,
}

impl MatchArm {
    pub fn new(pattern: Pattern, body: Expr, info: NodeInfo) -> (r: MatchArm)
        ensures
            r == (MatchArm { info, pattern, body }),
    {
        MatchArm { info, pattern, body }
    }
}

impl HasSpan for MatchArm {
    open spec fn spec_span(&self) -> Span {
        self.info.span
    }

    fn span(&self) -> (r: Span) {
        self.info.span
    }
}

impl AstNode for MatchArm {
    open spec fn spec_id(&self) -> NodeId {
        self.info.id
    }

    fn id(&self) -> (r: NodeId) {
        self.info.id
    }
}

} // verus!
