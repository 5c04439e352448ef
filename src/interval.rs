//! Closed intervals of scalars.
use vstd::prelude::*;
use crate::scalar::{clip, Scalar, LIMIT};

verus! {

/// The interval `[start, end]`; it is empty when `start > end`.
#[derive(Clone, Copy, Debug, PartialEq, Eq)]
pub struct Interval {
    pub start: Scalar,
    pub end: Scalar,
}

impl Interval {
    /// Whether the interval holds `x`, bounds included.
    pub open spec fn has(self, x: int) -> bool {
        self.start@ <= x <= self.end@
    }

    /// Whether this interval reaches at least as far as `o` on both sides.
    pub open spec fn covers(self, o: Interval) -> bool {
        self.start@ <= o.start@ && o.end@ <= self.end@
    }

    pub fn empty() -> (r: Interval)
        ensures
            r.start@ == LIMIT,
            r.end@ == -LIMIT,
    {
        Interval { start: Scalar::infinity(), end: Scalar::neg_infinity() }
    }

    pub fn universe() -> (r: Interval)
        ensures
            r.start@ == -LIMIT,
            r.end@ == LIMIT,
    {
        Interval { start: Scalar::neg_infinity(), end: Scalar::infinity() }
    }

    pub fn new(min: Scalar, max: Scalar) -> (r: Interval)
        ensures
            r.start == min,
            r.end == max,
    {
        Interval { start: min, end: max }
    }

    /// The interval spanned by a half-open range, taken with both bounds.
    pub fn from_range(range: std::ops::Range<Scalar>) -> (r: Interval)
        ensures
            r.start == range.start,
            r.end == range.end,
    {
        Interval { start: range.start, end: range.end }
    }

    /// The smallest interval that covers both `a` and `b`.
    pub fn from_pair(a: Interval, b: Interval) -> (r: Interval)
        ensures
            r.start@ == if a.start@ <= b.start@ { a.start@ } else { b.start@ },
            r.end@ == if a.end@ >= b.end@ { a.end@ } else { b.end@ },
            r.covers(a),
            r.covers(b),
    {
        Interval { start: a.start.min(b.start), end: a.end.max(b.end) }
    }

    /// The interval moved by `d`.
    pub fn shift(&self, d: Scalar) -> (r: Interval)
        ensures
            r.start@ == clip(self.start@ + d@),
            r.end@ == clip(self.end@ + d@),
    {
        Interval { start: self.start.add(d), end: self.end.add(d) }
    }

    pub fn size(&self) -> (r: Scalar)
        ensures
            r@ == clip(self.end@ - self.start@),
    {
        self.end.sub(self.start)
    }

    pub fn contains(&self, x: Scalar) -> (r: bool)
        ensures
            r == self.has(x@),
    {
        self.start.le(x) && x.le(self.end)
    }

    /// Whether `x` lies strictly inside.
    pub fn surrounds(&self, x: Scalar) -> (r: bool)
        ensures
            r == (self.start@ < x@ < self.end@),
    {
        self.start.lt(x) && x.lt(self.end)
    }

    /// `x` moved into the interval: `start` below it, `end` above it, else `x` itself.
    pub fn clamp(&self, x: Scalar) -> (r: Scalar)
        ensures
            x@ < self.start@ ==> r == self.start,
            self.start@ <= x@ && x@ > self.end@ ==> r == self.end,
            self.has(x@) ==> r == x,
    {
        if x.lt(self.start) {
            self.start
        } else if self.end.lt(x) {
            self.end
        } else {
            x
        }
    }

    /// The interval widened by `delta` on each side.
    pub fn expand(&self, delta: Scalar) -> (r: Interval)
        ensures
            r.start@ == clip(self.start@ - delta@),
            r.end@ == clip(self.end@ + delta@),
    {
        Interval { start: self.start.sub(delta), end: self.end.add(delta) }
    }

    /// Whether the two intervals share more than a point.
    pub fn overlaps(&self, other: &Interval) -> (r: bool)
        ensures
            r == ((if self.start@ >= other.start@ { self.start@ } else { other.start@ }) < (if self.end@
                <= other.end@ { self.end@ } else { other.end@ })),
    {
        let start = self.start.max(other.start);
        let end = self.end.min(other.end);
        start.lt(end)
    }
}

} // verus!
