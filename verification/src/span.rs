//! Byte spans: half-open ranges into the source text.

use vstd::prelude::*;

verus! {

/// A half-open byte range within the source text.
#[derive(Debug, Clone, Copy, PartialEq, Eq, Structural)]
pub struct Span {
    pub start: usize,
    pub end: usize,
}

impl Span {
    pub fn new(start: usize, end: usize) -> (r: Span)
        ensures
            r.start == start,
            r.end == end,
    {
        Span { start, end }
    }
}

/// The span `start..end`, written from spec-level positions.
pub open spec fn spec_span(start: int, end: int) -> Span {
    Span { start: start as usize, end: end as usize }
}

} // verus!
