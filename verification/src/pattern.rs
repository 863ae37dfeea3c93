//! Patterns: what `match` needs so far.

use vstd::prelude::*;
use crate::node::{AstNode, HasSpan, Ident, NodeId, NodeInfo};
use crate::span::Span;

verus! {

/// A single pattern node.
#[derive(Clone, Debug, PartialEq)]
pub struct Pattern {
    pub info: NodeInfo,
    pub kind: PatternKind,
}

impl Pattern {
    pub fn new(kind: PatternKind, info: NodeInfo) -> (r: Pattern)
        ensures
            r == (Pattern { info, kind }),
    {
        Pattern { info, kind }
    }
}

impl HasSpan for Pattern {
    open spec fn spec_span(&self) -> Span {
        self.info.span
    }

    fn span(&self) -> (r: Span) {
        self.info.span
    }
}

impl AstNode for Pattern {
    open spec fn spec_id(&self) -> NodeId {
        self.info.id
    }

    fn id(&self) -> (r: NodeId) {
        self.info.id
    }
}

/// Every pattern form.
#[derive(Clone, Debug, PartialEq)]
pub enum PatternKind {
    /// `_`
    Wildcard,
    /// `v`: binds the matched value.
    Binding(Ident),
}

} // verus!
