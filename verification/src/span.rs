//! Source locations.

use core::ops::Range;
use vstd::prelude::*;
use vstd::utf8::{encode_utf8_decode_utf8, is_char_boundary};
use vstd::string::StringSliceAdditionalSpecFns;
use crate::text::{
    lemma_boundary_index, lemma_byte_offset_mono, lemma_byte_offset_prefix, lemma_encode_prefix,
    lemma_encoded_boundary, push_str,
};
use crate::fmt::{decimal, push_decimal};

verus! {

/// A half-open byte range `[start, end)` into a source file.
#[derive(Clone, Copy, PartialEq, Eq, PartialOrd, Ord, Hash, Default, Debug, Structural)]
pub struct Span {
    pub start: u32,
    pub end: u32,
}

/// The smaller of two offsets.
pub open spec fn min_u32(a: u32, b: u32) -> u32 {
    if a <= b { a } else { b }
}

/// The larger of two offsets.
pub open spec fn max_u32(a: u32, b: u32) -> u32 {
    if a >= b { a } else { b }
}

impl Span {
    /// A span is well formed when it does not run backwards.
    pub open spec fn wf(self) -> bool {
        self.start <= self.end
    }

    /// Whether `self` reaches at least as far as `other` on both sides.
    pub open spec fn covers(self, other: Span) -> bool {
        self.start <= other.start && other.end <= self.end
    }

    /// The smallest span covering both `self` and `other`.
    pub open spec fn spec_merge(self, other: Span) -> Span {
        Span { start: min_u32(self.start, other.start), end: max_u32(self.end, other.end) }
    }

    /// Builds a span; `start` must not exceed `end`.
    pub fn new(start: u32, end: u32) -> (r: Span)
        requires
            start <= end,
        ensures
            r == (Span { start, end }),
    {
        Span { start, end }
    }

    /// Builds a span from `usize` offsets, keeping their low 32 bits.
    pub fn from_usize(start: usize, end: usize) -> (r: Span)
        requires
            (start as u32) <= (end as u32),
        ensures
            r == (Span { start: start as u32, end: end as u32 }),
    {
        Span::new(start as u32, end as u32)
    }

    /// The smallest span that covers both.
    pub fn merge(self, other: Span) -> (r: Span)
        requires
            min_u32(self.start, other.start) <= max_u32(self.end, other.end),
        ensures
            r == self.spec_merge(other),
    {
        let start = if self.start <= other.start { self.start } else { other.start };
        let end = if self.end >= other.end { self.end } else { other.end };
        Span::new(start, end)
    }

    /// Number of bytes covered.
    pub fn len(self) -> (r: u32)
        requires
            self.start <= self.end,
        ensures
            r == self.end - self.start,
    {
        self.end - self.start
    }

    /// Whether the span covers no bytes.
    pub fn is_empty(self) -> (r: bool)
        ensures
            r == (self.start == self.end),
    {
        self.start == self.end
    }

    /// The span as a `usize` range.
    pub fn range(self) -> (r: Range<usize>)
        ensures
            r.start == self.start as usize,
            r.end == self.end as usize,
    {
        (self.start as usize)..(self.end as usize)
    }

    /// The text this span covers; `src` must be the file it came from.
    pub fn text(self, src: &str) -> (r: &str)
        requires
            self.start <= self.end <= src.spec_bytes().len(),
            is_char_boundary(src.spec_bytes(), self.start as int),
            is_char_boundary(src.spec_bytes(), self.end as int),
        ensures
            r.spec_bytes() =~= src.spec_bytes().subrange(self.start as int, self.end as int),
    {
        str_slice(src, self.start as usize, self.end as usize)
    }

    /// The span written as `start..end`, its debug form.
    pub fn to_debug_string(self) -> (r: String)
        ensures
            r@ == span_text(self),
    {
        let mut out = String::new();
        push_decimal(&mut out, self.start as u64);
        push_str(&mut out, "..");
        push_decimal(&mut out, self.end as u64);
        out
    }
}

impl From<Span> for Range<usize> {
    fn from(span: Span) -> (r: Range<usize>) {
        span.range()
    }
}

impl vstd::std_specs::convert::FromSpecImpl<Span> for Range<usize> {
    open spec fn obeys_from_spec() -> bool {
        true
    }

    open spec fn from_spec(span: Span) -> Range<usize> {
        Range { start: span.start as usize, end: span.end as usize }
    }
}

/// Merging spans is commutative, covers both spans, and is the smallest span
/// that does.
pub proof fn merge_covers_both(a: Span, b: Span)
    ensures
        a.spec_merge(b) == b.spec_merge(a),
        a.spec_merge(b).covers(a),
        a.spec_merge(b).covers(b),
        forall|c: Span| c.covers(a) && c.covers(b) ==> #[trigger] c.covers(a.spec_merge(b)),
        a.wf() && b.wf() ==> a.spec_merge(b).wf(),
{
}

/// `start..end` in decimal.
pub open spec fn span_text(s: Span) -> Seq<char> {
    decimal(s.start as nat) + ".."@ + decimal(s.end as nat)
}

/// `&src[from..to]` on byte offsets that fall on character boundaries.
fn str_slice(src: &str, from: usize, to: usize) -> (r: &str)
    requires
        from <= to <= src.spec_bytes().len(),
        is_char_boundary(src.spec_bytes(), from as int),
        is_char_boundary(src.spec_bytes(), to as int),
    ensures
        r.spec_bytes() =~= src.spec_bytes().subrange(from as int, to as int),
{
    let ghost s = src@;
    let (head, _) = src.split_at(to);
    proof {
        let kt = lemma_boundary_index(s, to as int);
        let kf = lemma_boundary_index(s, from as int);
        lemma_encode_prefix(s, kt);
        encode_utf8_decode_utf8(head@);
        encode_utf8_decode_utf8(s.take(kt));
        assert(head@ == s.take(kt));
        if kf > kt {
            lemma_byte_offset_mono(s, kt, kf);
        }
        lemma_byte_offset_prefix(s, s.take(kt), kf);
        lemma_encoded_boundary(s.take(kt), kf);
    }
    let (_, mid) = head.split_at(from);
    mid
}

} // verus!
