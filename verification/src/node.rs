//! Identity and source-location plumbing shared by every syntax-tree node.
//!
//! Every node has a [`Span`], so later passes can point at the exact source
//! text responsible for it, and a unique [`NodeId`], so later passes can keep
//! what they learn about a node in side tables keyed by that id.

use vstd::prelude::*;
use crate::fmt::{decimal, push_decimal};
use crate::span::{Span, span_text};
use crate::text::{push_char, push_str};

verus! {

/// A node's identity within a single parsed module.
///
/// Ids are dense and allocated sequentially by [`NodeIdGen`], so they double as
/// indices into side tables.
#[derive(Clone, Copy, PartialEq, Eq, PartialOrd, Ord, Hash, Debug, Structural)]
pub struct NodeId(u32);

impl NodeId {
    /// A placeholder for nodes synthesised during error recovery, which do not
    /// correspond to anything the user wrote.
    #[allow(non_snake_case)]
    pub fn DUMMY() -> (r: NodeId)
        ensures
            r.value() == u32::MAX,
    {
        NodeId(u32::MAX)
    }

    /// The raw number of the id.
    pub closed spec fn value(self) -> u32 {
        self.0
    }

    /// Whether this is the placeholder id.
    pub open spec fn spec_is_dummy(self) -> bool {
        self.value() == u32::MAX
    }

    /// The raw index. Only [`NodeIdGen`] constructs ids.
    pub fn as_u32(self) -> (r: u32)
        ensures
            r == self.value(),
    {
        self.0
    }

    /// Position in a side table keyed by node id. The placeholder id has none.
    pub fn index(self) -> (r: usize)
        requires
            !self.spec_is_dummy(),
        ensures
            r == self.value(),
    {
        self.0 as usize
    }

    pub fn is_dummy(self) -> (r: bool)
        ensures
            r == self.spec_is_dummy(),
    {
        self.0 == u32::MAX
    }

    /// `#n`, or `#dummy` for the placeholder: the id's debug form.
    pub fn to_debug_string(self) -> (r: String)
        ensures
            r@ == node_id_text(self),
    {
        if self.0 == u32::MAX {
            String::from_str("#dummy")
        } else {
            let mut out = String::new();
            push_char(&mut out, '#');
            push_decimal(&mut out, self.0 as u64);
            out
        }
    }
}

/// The debug form of an id.
pub open spec fn node_id_text(id: NodeId) -> Seq<char> {
    if id.spec_is_dummy() {
        "#dummy"@
    } else {
        seq!['#'] + decimal(id.value() as nat)
    }
}

/// Hands out fresh [`NodeId`]s while parsing one module.
#[derive(Debug)]
pub struct NodeIdGen {
    next: u32,
}

impl NodeIdGen {
    /// How many ids have been handed out.
    pub closed spec fn count(&self) -> nat {
        self.next as nat
    }

    pub fn new() -> (r: NodeIdGen)
        ensures
            r.count() == 0,
    {
        NodeIdGen::default()
    }

    /// Allocates the next unused id: the ids handed out are `0, 1, 2, ...` in
    /// order, so no two are equal and none is the placeholder. At most
    /// `u32::MAX - 1` ids can be allocated.
    pub fn fresh(&mut self) -> (id: NodeId)
        requires
            old(self).count() < u32::MAX - 1,
        ensures
            id.value() == old(self).count(),
            !id.spec_is_dummy(),
            final(self).count() == old(self).count() + 1,
    {
        let id = NodeId(self.next);
        self.next = self.next + 1;
        id
    }

    /// How many ids have been handed out; also the length a side table needs.
    pub fn allocated(&self) -> (r: usize)
        ensures
            r == self.count(),
    {
        self.next as usize
    }
}

/// Ids handed out by one generator at two different moments differ, and an
/// id handed out earlier is an index into a side table sized by the later
/// count of ids allocated.
pub proof fn fresh_ids_are_distinct(earlier: NodeIdGen, later: NodeIdGen, a: NodeId, b: NodeId)
    requires
        a.value() == earlier.count(),
        b.value() == later.count(),
        earlier.count() < later.count(),
    ensures
        a != b,
        a.value() < later.count(),
{
}

impl Default for NodeIdGen {
    fn default() -> (r: NodeIdGen)
        ensures
            r.count() == 0,
    {
        NodeIdGen { next: 0 }
    }
}

/// The identity and location every syntax-tree node embeds.
#[derive(Clone, Copy, PartialEq, Eq, Debug, Structural)]
pub struct NodeInfo {
    pub id: NodeId,
    pub span: Span,
}

impl NodeInfo {
    pub fn new(id: NodeId, span: Span) -> (r: NodeInfo)
        ensures
            r == (NodeInfo { id, span }),
    {
        NodeInfo { id, span }
    }

    /// A node not present in the source, used during error recovery.
    pub fn dummy(span: Span) -> (r: NodeInfo)
        ensures
            r.id.spec_is_dummy(),
            r.span == span,
    {
        NodeInfo { id: NodeId::DUMMY(), span }
    }

    /// `id@span`, the debug form.
    pub fn to_debug_string(self) -> (r: String)
        ensures
            r@ == node_id_text(self.id) + seq!['@'] + span_text(self.span),
    {
        let mut out = self.id.to_debug_string();
        push_char(&mut out, '@');
        let s = self.span.to_debug_string();
        push_str(&mut out, s.as_str());
        out
    }
}

/// Anything that knows where it came from.
pub trait HasSpan {
    spec fn spec_span(&self) -> Span;

    fn span(&self) -> (r: Span)
        ensures
            r == self.spec_span(),
    ;
}

/// A syntax-tree node: a spanned thing that also has an identity.
pub trait AstNode: HasSpan {
    spec fn spec_id(&self) -> NodeId;

    fn id(&self) -> (r: NodeId)
        ensures
            r == self.spec_id(),
    ;

    fn info(&self) -> (r: NodeInfo)
        ensures
            r.id == self.spec_id(),
            r.span == self.spec_span(),
    {
        NodeInfo::new(self.id(), self.span())
    }
}

impl HasSpan for NodeInfo {
    open spec fn spec_span(&self) -> Span {
        self.span
    }

    fn span(&self) -> (r: Span) {
        self.span
    }
}

impl AstNode for NodeInfo {
    open spec fn spec_id(&self) -> NodeId {
        self.id
    }

    fn id(&self) -> (r: NodeId) {
        self.id
    }
}

/// Attaches a span to a value that needs no identity of its own, such as an
/// identifier, a field name or an operator.
#[derive(Clone, Copy, PartialEq, Eq, Debug)]
pub struct Spanned<T> {
    pub value: T,
    pub span: Span,
}

impl<T> Spanned<T> {
    pub fn new(value: T, span: Span) -> (r: Spanned<T>)
        ensures
            r.value == value,
            r.span == span,
    {
        Spanned { value, span }
    }

    /// Transforms the value, keeping the span.
    pub fn map<U, F: FnOnce(T) -> U>(self, f: F) -> (r: Spanned<U>)
        requires
            f.requires((self.value,)),
        ensures
            r.span == self.span,
            f.ensures((self.value,), r.value),
    {
        Spanned { value: f(self.value), span: self.span }
    }

    pub fn as_ref(&self) -> (r: Spanned<&T>)
        ensures
            *r.value == self.value,
            r.span == self.span,
    {
        Spanned { value: &self.value, span: self.span }
    }
}

impl<T> HasSpan for Spanned<T> {
    open spec fn spec_span(&self) -> Span {
        self.span
    }

    fn span(&self) -> (r: Span) {
        self.span
    }
}

/// An identifier as written in the source.
pub type Ident = Spanned<String>;

impl Spanned<String> {
    /// `"text"@start..end`, the identifier's debug form.
    pub fn to_debug_string(&self) -> (r: String)
        ensures
            r@ == crate::quote::debug_quoted(self.value@) + seq!['@'] + span_text(self.span),
    {
        let mut out = crate::quote::quote(self.value.as_str());
        push_char(&mut out, '@');
        let s = self.span.to_debug_string();
        push_str(&mut out, s.as_str());
        out
    }
}

/// Whether merging the spans from left to right never has to build a span
/// that runs backwards.
pub open spec fn fold_ok(spans: Seq<Span>) -> bool
    decreases spans.len(),
{
    if spans.len() <= 1 {
        true
    } else {
        let acc = fold_merge(spans.drop_last());
        fold_ok(spans.drop_last()) && crate::span::min_u32(acc.start, spans.last().start)
            <= crate::span::max_u32(acc.end, spans.last().end)
    }
}

/// The spans merged from left to right (the first span when there is one).
pub open spec fn fold_merge(spans: Seq<Span>) -> Span
    decreases spans.len(),
{
    if spans.len() <= 1 {
        spans[0]
    } else {
        fold_merge(spans.drop_last()).spec_merge(spans.last())
    }
}

/// The spans of some spanned things.
pub open spec fn spans_of<T: HasSpan>(items: Seq<T>) -> Seq<Span> {
    items.map_values(|t: T| t.spec_span())
}

/// Merging spans covers each of them and is covered by anything that covers
/// them all.
pub proof fn lemma_fold_merge_covers(spans: Seq<Span>)
    requires
        spans.len() >= 1,
    ensures
        forall|k: int| 0 <= k < spans.len() ==> fold_merge(spans).covers(#[trigger] spans[k]),
        forall|c: Span|
            (forall|k: int| 0 <= k < spans.len() ==> c.covers(#[trigger] spans[k])) ==> #[trigger] c.covers(
                fold_merge(spans),
            ),
    decreases spans.len(),
{
    if spans.len() > 1 {
        let init = spans.drop_last();
        lemma_fold_merge_covers(init);
        assert forall|k: int| 0 <= k < spans.len() implies fold_merge(spans).covers(#[trigger] spans[k]) by {
            if k < spans.len() - 1 {
                assert(spans[k] == init[k]);
            }
        }
        assert forall|c: Span|
            (forall|k: int| 0 <= k < spans.len() ==> c.covers(#[trigger] spans[k])) implies #[trigger] c.covers(
            fold_merge(spans),
        ) by {
            assert forall|k: int| 0 <= k < init.len() implies c.covers(#[trigger] init[k]) by {
                assert(init[k] == spans[k]);
            }
            assert(c.covers(spans[spans.len() - 1]));
            assert(c.covers(fold_merge(init)));
        }
    }
}

/// The smallest span covering every element, or `fallback` when there is none.
///
/// Used to give a parent node a span derived from its children.
pub fn spanning<T: HasSpan>(items: &[T], fallback: Span) -> (r: Span)
    requires
        fold_ok(spans_of(items@)),
    ensures
        items@.len() == 0 ==> r == fallback,
        items@.len() > 0 ==> r == fold_merge(spans_of(items@)),
        forall|k: int| 0 <= k < items@.len() ==> r.covers(#[trigger] items@[k].spec_span()),
        forall|c: Span|
            (forall|k: int| 0 <= k < items@.len() ==> c.covers(#[trigger] items@[k].spec_span())) ==> (
            items@.len() > 0 ==> #[trigger] c.covers(r)),
{
    if items.len() == 0 {
        return fallback;
    }
    let ghost spans = spans_of(items@);
    let mut acc = items[0].span();
    let mut i: usize = 1;
    proof {
        assert(spans.take(1) =~= seq![spans[0]]);
    }
    while i < items.len()
        invariant
            1 <= i <= items.len(),
            spans == spans_of(items@),
            fold_ok(spans),
            acc == fold_merge(spans.take(i as int)),
        decreases items.len() - i,
    {
        let ghost pre = spans.take(i + 1);
        proof {
            assert(pre.drop_last() =~= spans.take(i as int));
            lemma_fold_ok_prefix(spans, i + 1);
        }
        let next = items[i].span();
        acc = acc.merge(next);
        i = i + 1;
    }
    proof {
        assert(spans.take(items@.len() as int) =~= spans);
        lemma_fold_merge_covers(spans);
        assert forall|k: int| 0 <= k < items@.len() implies acc.covers(#[trigger] items@[k].spec_span()) by {
            assert(spans[k] == items@[k].spec_span());
        }
        assert forall|c: Span|
            (forall|k: int| 0 <= k < items@.len() ==> c.covers(#[trigger] items@[k].spec_span())) implies (
            items@.len() > 0 ==> #[trigger] c.covers(acc)) by {
            assert forall|k: int| 0 <= k < spans.len() implies c.covers(#[trigger] spans[k]) by {
                assert(spans[k] == items@[k].spec_span());
            }
        }
    }
    acc
}

proof fn lemma_fold_ok_prefix(spans: Seq<Span>, n: int)
    requires
        fold_ok(spans),
        0 <= n <= spans.len(),
    ensures
        fold_ok(spans.take(n)),
    decreases spans.len() - n,
{
    if n < spans.len() {
        if spans.len() > 1 {
            assert(spans.drop_last().take(n) =~= spans.take(n));
            lemma_fold_ok_prefix(spans.drop_last(), n);
        }
    } else {
        assert(spans.take(n) =~= spans);
    }
}

} // verus!
