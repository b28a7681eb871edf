//! Source ranges and their unions.
use vstd::prelude::*;

verus! {

/// A half-open range of offsets into the source text.
#[derive(Clone, Copy, Debug, PartialEq, Eq, Structural)]
pub struct Span {
    pub start: usize,
    pub end: usize,
}

/// The smallest span that covers both `a` and `b`.
pub open spec fn span_union(a: Span, b: Span) -> Span {
    Span {
        start: if a.start <= b.start { a.start } else { b.start },
        end: if a.end >= b.end { a.end } else { b.end },
    }
}

/// Union of two optional spans; an absent span contributes nothing.
pub open spec fn merge_span(a: Option<Span>, b: Option<Span>) -> Option<Span> {
    match (a, b) {
        (Some(x), Some(y)) => Some(span_union(x, y)),
        (Some(x), None) => Some(x),
        (None, y) => y,
    }
}

/// Union of a sequence of optional spans, taken left to right.
pub open spec fn merge_spans(spans: Seq<Option<Span>>) -> Option<Span>
    decreases spans.len(),
{
    if spans.len() == 0 {
        None
    } else {
        merge_span(merge_spans(spans.drop_last()), spans.last())
    }
}

/// `outer` reaches at least as far as `inner` on both sides.
pub open spec fn span_covers(outer: Span, inner: Span) -> bool {
    outer.start <= inner.start && inner.end <= outer.end
}

impl Span {
    pub fn new(start: usize, end: usize) -> (r: Span)
        ensures
            r == (Span { start, end }),
    {
        Span { start, end }
    }

    /// The smallest span covering `self` and `other`.
    pub fn union(&self, other: &Span) -> (r: Span)
        ensures
            r == span_union(*self, *other),
    {
        Span {
            start: if self.start <= other.start { self.start } else { other.start },
            end: if self.end >= other.end { self.end } else { other.end },
        }
    }
}

/// Union of two optional spans.
pub fn merge(a: Option<Span>, b: Option<Span>) -> (r: Option<Span>)
    ensures
        r == merge_span(a, b),
{
    match a {
        Some(x) => match b {
            Some(y) => Some(x.union(&y)),
            None => Some(x),
        },
        None => b,
    }
}

/// The union of a sequence of spans is absent exactly when every member is
/// absent; otherwise it covers every present member, and each of its two ends
/// is the end of some present member.
pub proof fn lemma_merge_spans_is_union(spans: Seq<Option<Span>>)
    ensures
        merge_spans(spans) is None <==> (forall|i: int| 0 <= i < spans.len() ==> spans[i] is None),
        merge_spans(spans) matches Some(u) ==> {
            &&& forall|i: int|
                0 <= i < spans.len() && spans[i] is Some ==> span_covers(u, #[trigger] spans[i]->0)
            &&& exists|i: int| 0 <= i < spans.len() && spans[i] is Some && (#[trigger] spans[i]->0).start == u.start
            &&& exists|i: int| 0 <= i < spans.len() && spans[i] is Some && (#[trigger] spans[i]->0).end == u.end
        },
    decreases spans.len(),
{
    if spans.len() > 0 {
        let init = spans.drop_last();
        lemma_merge_spans_is_union(init);
        assert(forall|i: int| 0 <= i < init.len() ==> init[i] == spans[i]);
        let last = spans.len() - 1;
        match merge_spans(spans) {
            Some(u) => {
                match merge_spans(init) {
                    Some(v) => {
                        let i0 = choose|i: int| 0 <= i < init.len() && init[i] is Some && (#[trigger] init[i]->0).start == v.start;
                        let i1 = choose|i: int| 0 <= i < init.len() && init[i] is Some && (#[trigger] init[i]->0).end == v.end;
                        assert(spans[i0] == init[i0] && spans[i1] == init[i1]);
                        if u.start == v.start {
                            assert(spans[i0] is Some && (spans[i0]->0).start == u.start);
                        } else {
                            assert(spans[last] is Some && (spans[last]->0).start == u.start);
                        }
                        if u.end == v.end {
                            assert(spans[i1] is Some && (spans[i1]->0).end == u.end);
                        } else {
                            assert(spans[last] is Some && (spans[last]->0).end == u.end);
                        }
                    },
                    None => {
                        assert(spans[last] is Some && (spans[last]->0).start == u.start);
                        assert(spans[last] is Some && (spans[last]->0).end == u.end);
                    },
                }
            },
            None => {},
        }
    }
}

/// Merging is associative, so a node's span does not depend on how the spans
/// of its parts are grouped.
pub proof fn lemma_merge_span_assoc(a: Option<Span>, b: Option<Span>, c: Option<Span>)
    ensures
        merge_span(merge_span(a, b), c) == merge_span(a, merge_span(b, c)),
{
}

} // verus!
