//! Source positions.
use vstd::prelude::*;

verus! {

/// A range of source positions, from `start` up to but not including `end`.
#[derive(Clone, Copy, Debug, PartialEq, Eq, Structural)]
pub struct Span {
    pub start: u32,
    pub end: u32,
}

impl Span {
    /// Makes the span from `start` to `end`.
    pub fn new(start: u32, end: u32) -> (span: Span)
        ensures
            span == (Span { start, end }),
    {
        Span { start, end }
    }

    /// The span that ends `offset` positions further right, or at the last position there is.
    pub open spec fn expanded_right(self, offset: u32) -> Span {
        Span {
            start: self.start,
            end: if self.end + offset > u32::MAX {
                u32::MAX
            } else {
                (self.end + offset) as u32
            },
        }
    }

    /// Moves the end of the span `offset` positions to the right.
    pub fn expand_right(self, offset: u32) -> (span: Span)
        ensures
            span == self.expanded_right(offset),
    {
        Span { start: self.start, end: self.end.saturating_add(offset) }
    }
}

} // verus!
