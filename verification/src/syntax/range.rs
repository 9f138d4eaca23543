//! Ranges of syntax nodes within their document.

use vstd::prelude::*;

verus! {

/// A zero-based row and byte column in a document.
#[derive(Clone, Copy, Debug, PartialEq, Eq, Structural)]
pub struct Point {
    pub row: usize,
    pub column: usize,
}

/// The extent of a syntax node: its byte offsets and its start and end points.
#[derive(Clone, Copy, Debug, PartialEq, Eq, Structural)]
pub struct SyntaxRange {
    pub start_byte: usize,
    pub end_byte: usize,
    pub start_point: Point,
    pub end_point: Point,
}

impl SyntaxRange {
    /// Offset of the first byte of the range.
    pub fn start_byte(&self) -> (res: usize)
        ensures
            res == self.start_byte,
    {
        self.start_byte
    }

    /// Offset just past the last byte of the range.
    pub fn end_byte(&self) -> (res: usize)
        ensures
            res == self.end_byte,
    {
        self.end_byte
    }
}

/// Utility trait for working with syntax ranges.
pub trait RangeExt {
    /// Predicate to determine if one range contains another range.
    fn contains(&self, other: &SyntaxRange) -> bool;
}

/// Whether the bytes of `inner` lie within the bytes of `outer`.
pub open spec fn range_contains(outer: SyntaxRange, inner: SyntaxRange) -> bool {
    outer.start_byte <= inner.start_byte && inner.end_byte <= outer.end_byte
}

impl RangeExt for SyntaxRange {
    fn contains(&self, other: &SyntaxRange) -> (res: bool)
        ensures
            res == range_contains(*self, *other),
    {
        self.start_byte() <= other.start_byte() && other.end_byte() <= self.end_byte()
    }
}

/// Containment of ranges is reflexive.
pub proof fn lemma_range_contains_reflexive(r: SyntaxRange)
    ensures
        range_contains(r, r),
{
}

/// Containment of ranges is transitive.
pub proof fn lemma_range_contains_transitive(a: SyntaxRange, b: SyntaxRange, c: SyntaxRange)
    requires
        range_contains(a, b),
        range_contains(b, c),
    ensures
        range_contains(a, c),
{
}

} // verus!
