use vstd::prelude::*;

verus! {

/// A half-open range `start..end` of byte offsets in a source text.
#[derive(Clone, Copy, PartialEq, Eq, Structural, Debug)]
pub struct Span {
    pub start: usize,
    pub end: usize,
}

impl Span {
    pub open spec fn has(self, offset: usize) -> bool {
        self.start <= offset && offset < self.end
    }

    pub open spec fn length(self) -> nat {
        if self.start <= self.end {
            (self.end - self.start) as nat
        } else {
            0
        }
    }

    pub fn new(start: usize, end: usize) -> (r: Span)
        ensures
            r == (Span { start, end }),
    {
        Span { start, end }
    }

    /// Whether `offset` lies inside the range.
    pub fn contains(&self, offset: usize) -> (r: bool)
        ensures
            r == self.has(offset),
    {
        self.start <= offset && offset < self.end
    }

    /// The number of offsets in the range; an inverted range is empty.
    pub fn len(&self) -> (r: usize)
        ensures
            r == self.length(),
    {
        if self.start <= self.end {
            self.end - self.start
        } else {
            0
        }
    }
}

} // verus!
