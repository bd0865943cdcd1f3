//! Space managers: contiguous memory regions with bump allocation. Young,
//! old, large and permanent generations each own one region.

use vstd::prelude::*;
use crate::object::Address;

verus! {

/// A contiguous region `[base, end)` with a bump pointer `top`: the bytes
/// `[base, top)` are allocated, the bytes `[top, end)` are free.
#[derive(Clone, Copy, PartialEq, Eq, Structural, Debug)]
pub struct Space {
    pub base: usize,
    pub top: usize,
    pub end: usize,
}

impl Space {
    pub open spec fn wf(self) -> bool {
        &&& self.base % 8 == 0
        &&& self.top % 8 == 0
        &&& self.base <= self.top <= self.end
    }

    /// Whether `addr` lies in the allocated part of the region.
    pub open spec fn committed(self, addr: int) -> bool {
        self.base <= addr < self.top
    }

    /// Whether `addr` lies anywhere in the region.
    pub open spec fn contains(self, addr: int) -> bool {
        self.base <= addr < self.end
    }

    /// Free bytes left.
    pub open spec fn spec_free(self) -> int {
        self.end - self.top
    }

    pub fn new(base: usize, end: usize) -> (r: Space)
        requires
            base % 8 == 0,
            base <= end,
        ensures
            r == (Space { base, top: base, end }),
            r.wf(),
    {
        Space { base, top: base, end }
    }

    /// Bump-allocates `size` bytes, returning the start of the extent;
    /// succeeds exactly when `size` bytes are free.
    pub fn bump(&mut self, size: usize) -> (r: Option<Address>)
        requires
            old(self).wf(),
            size % 8 == 0,
        ensures
            final(self).base == old(self).base,
            final(self).end == old(self).end,
            final(self).wf(),
            r is Some <==> size <= old(self).spec_free(),
            match r {
                Some(a) => {
                    &&& a.0 == old(self).top
                    &&& final(self).top == old(self).top + size
                },
                None => *final(self) == *old(self),
            },
    {
        if self.end - self.top >= size {
            let a = Address(self.top);
            self.top = self.top + size;
            Some(a)
        } else {
            None
        }
    }

    /// Resets the bump pointer: the whole region becomes free. Used when the
    /// young generation is emptied by evacuation.
    pub fn reset(&mut self)
        requires
            old(self).wf(),
        ensures
            *final(self) == (Space { top: old(self).base, ..*old(self) }),
    {
        self.top = self.base;
    }

    /// Moves the bump pointer to `top`, the end of a rebuilt object layout.
    /// Used when the old generation has been compacted.
    pub fn set_top(&mut self, top: usize)
        requires
            old(self).wf(),
            old(self).base <= top <= old(self).end,
            top % 8 == 0,
        ensures
            *final(self) == (Space { top, ..*old(self) }),
    {
        self.top = top;
    }
}

/// Why a collection was triggered.
#[derive(Clone, Copy, PartialEq, Eq, Structural, Debug)]
pub enum GcReason {
    /// An allocation request could not be satisfied.
    AllocationFailure,
    /// The runtime asked for a collection explicitly.
    ForceCollect,
}

/// The one failure a collection can surface: no space could be reclaimed for
/// a pending evacuation even after compaction. The runtime treats it as fatal.
#[derive(Clone, Copy, PartialEq, Eq, Structural, Debug)]
pub enum GcError {
    OutOfMemory,
}

} // verus!
