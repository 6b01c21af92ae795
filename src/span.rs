use vstd::prelude::*;

verus! {

/// A half-open range `[lo, hi)` of offsets into the source text.
#[derive(Clone, Copy, Debug, PartialEq, Eq, Structural)]
pub struct Span {
    pub lo: u32,
    pub hi: u32,
}

impl Span {
    /// A span is well formed when it does not run backwards.
    pub open spec fn wf(self) -> bool {
        self.lo <= self.hi
    }

    pub fn new(lo: u32, hi: u32) -> (r: Span)
        ensures
            r == (Span { lo, hi }),
    {
        Span { lo, hi }
    }
}

} // verus!
