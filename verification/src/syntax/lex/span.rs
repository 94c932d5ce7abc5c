//! Spans of byte positions in a code map, in which each source file holds
//! a range of positions of its own.

use vstd::prelude::*;

verus! {

/// A span of byte positions: from `start`, up to but not including `end`.
#[derive(Copy, Clone, Debug, PartialEq, Eq, Structural)]
pub struct ByteSpan {
    pub start: u32,
    pub end: u32,
}

/// The span between two positions, whichever order they come in.
pub open spec fn span_of(a: u32, b: u32) -> ByteSpan {
    if a <= b {
        ByteSpan { start: a, end: b }
    } else {
        ByteSpan { start: b, end: a }
    }
}

impl ByteSpan {
    /// The span between `start` and `end`; the two are swapped when `end`
    /// comes first.
    pub fn new(start: u32, end: u32) -> (r: Self)
        ensures
            r == span_of(start, end),
    {
        if start <= end {
            ByteSpan { start, end }
        } else {
            ByteSpan { start: end, end: start }
        }
    }

    /// The start of the span.
    pub fn start(&self) -> (r: u32)
        ensures
            r == self.start,
    {
        self.start
    }

    /// The end of the span.
    pub fn end(&self) -> (r: u32)
        ensures
            r == self.end,
    {
        self.end
    }

    /// The span with its start replaced.
    pub fn with_start(&self, start: u32) -> (r: Self)
        ensures
            r == span_of(start, self.end),
    {
        ByteSpan::new(start, self.end)
    }

    /// The span with its end replaced.
    pub fn with_end(&self, end: u32) -> (r: Self)
        ensures
            r == span_of(self.start, end),
    {
        ByteSpan::new(self.start, end)
    }

    /// The span that encloses both `self` and `other`.
    pub fn to(&self, other: &Self) -> (r: Self)
        ensures
            r == span_of(
                if self.start <= other.start { self.start } else { other.start },
                if self.end >= other.end { self.end } else { other.end },
            ),
    {
        let lo = if self.start <= other.start { self.start } else { other.start };
        let hi = if self.end >= other.end { self.end } else { other.end };
        ByteSpan::new(lo, hi)
    }
}

impl Default for ByteSpan {
    /// The empty span at position 0.
    fn default() -> (r: Self)
        ensures
            r == (ByteSpan { start: 0, end: 0 }),
    {
        ByteSpan { start: 0, end: 0 }
    }
}

} // verus!
