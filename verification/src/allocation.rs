//! The descriptor behind owned memory allocations.

use vstd::prelude::*;

verus! {

/// A handle describing an owned region of memory.
///
/// The handle carries the page-aligned bounds of an anonymous allocation as
/// plain addresses; it never dereferences them, since the underlying memory
/// may have been mapped with no access at all. Whoever owns the mapping
/// itself frees exactly this range when the allocation's scope ends.
pub struct Allocation {
    /// The allocation's base address.
    pub base: usize,
    /// The allocation's size in bytes.
    pub size: usize,
}

impl Allocation {
    /// The allocation's range `[base, base + size)` never wraps the
    /// address space.
    pub open spec fn wf(self) -> bool {
        self.base + self.size <= usize::MAX
    }

    /// Creates an allocation descriptor directly from a base address and a
    /// length.
    ///
    /// For decomposing an `Allocation` into raw parts, see
    /// [`Self::into_raw_parts`]. Nothing checks that the pair describes a
    /// live mapping; whoever creates the descriptor owes that.
    pub fn from_raw_parts(base: usize, size: usize) -> (r: Allocation)
        ensures
            r.base == base,
            r.size == size,
    {
        Allocation { base, size }
    }

    /// Returns the allocation's base address.
    ///
    /// The address is always aligned to the operating system's page size.
    pub fn as_ptr(&self) -> (r: usize)
        ensures
            r == self.base,
    {
        self.base
    }

    /// Returns the allocation's base address for mutation through a raw
    /// view.
    pub fn as_mut_ptr(&mut self) -> (r: usize)
        ensures
            r == old(self).base,
            *final(self) == *old(self),
    {
        self.base
    }

    /// Returns the bounds spanning the allocation's address space.
    ///
    /// The returned pair is a half-open range: the second address points
    /// one past the last byte, so an empty allocation is represented by two
    /// equal addresses and the difference of the two is the allocation's
    /// size. The upper bound saturates at the top of the address space.
    pub fn as_range(&self) -> (r: (usize, usize))
        ensures
            r.0 == self.base,
            r.1 == if self.base + self.size <= usize::MAX {
                self.base + self.size
            } else {
                usize::MAX as int
            },
    {
        if self.size <= usize::MAX - self.base {
            (self.base, self.base + self.size)
        } else {
            (self.base, usize::MAX)
        }
    }

    /// Returns the bounds spanning the allocation's address space, for
    /// reading.
    pub fn as_ptr_range(&self) -> (r: (usize, usize))
        ensures
            r.0 == self.base,
            r.1 == if self.base + self.size <= usize::MAX {
                self.base + self.size
            } else {
                usize::MAX as int
            },
    {
        self.as_range()
    }

    /// Returns the bounds spanning the allocation's address space, for
    /// mutation.
    pub fn as_mut_ptr_range(&mut self) -> (r: (usize, usize))
        ensures
            r.0 == old(self).base,
            r.1 == if old(self).base + old(self).size <= usize::MAX {
                old(self).base + old(self).size
            } else {
                usize::MAX as int
            },
            *final(self) == *old(self),
    {
        self.as_range()
    }

    /// Returns the size of the allocation in bytes.
    ///
    /// The size is always a multiple of the operating system's page size.
    pub fn len(&self) -> (r: usize)
        ensures
            r == self.size,
    {
        self.size
    }

    /// Decomposes the allocation into its raw parts: base address and
    /// length.
    ///
    /// After this call the caller is responsible for the mapping the
    /// descriptor stood for. For the inverse, see
    /// [`Self::from_raw_parts`].
    pub fn into_raw_parts(self) -> (r: (usize, usize))
        ensures
            r.0 == self.base,
            r.1 == self.size,
    {
        (self.base, self.size)
    }
}

} // verus!
