//! Statements: what blocks need so far.

use vstd::prelude::*;
use crate::expr::Expr;
use crate::node::{AstNode, HasSpan, NodeId, NodeInfo};
use crate::span::Span;

verus! {

/// A single statement node.
#[derive(Debug, PartialEq)]
pub struct Stmt {
    pub info: NodeInfo,
    pub kind: StmtKind,
}

impl Stmt {
    pub fn new(kind: StmtKind, info: NodeInfo) -> (r: Stmt)
        ensures
            r == (Stmt { info, kind }),
    {
        Stmt { info, kind }
    }
}

impl HasSpan for Stmt {
    open spec fn spec_span(&self) -> Span {
        self.info.span
    }

    fn span(&self) -> (r: Span) {
        self.info.span
    }
}

impl AstNode for Stmt {
    open spec fn spec_id(&self) -> NodeId {
        self.info.id
    }

    fn id(&self) -> (r: NodeId) {
        self.info.id
    }
}

/// Every statement form.
#[derive(Debug, PartialEq)]
pub enum StmtKind {
    /// `foo();`
    Expr(Expr),
}

} // verus!
