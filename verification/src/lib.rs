//! Cross-platform virtual memory introspection, modelled and verified.
//!
//! The crate works with memory pages, which are aligned to the operating
//! system's page size. Every operation that takes an address and a size
//! rounds its input to the closest page boundaries first.
//!
//! A region is a collection of one or more pages lying consecutively in
//! memory, with the same properties.

use vstd::prelude::*;

mod allocation;
mod error;
mod lock;
pub mod os;
pub mod page;
mod protect;
mod protection;
mod query;
mod util;
mod page_view;

pub use allocation::Allocation;
pub use error::Error;
pub use lock::LockGuard;
pub use protect::{lemma_trim_confines, trim_snapshot, ProtectGuard};
pub use protect::{spec_ordered, spec_trim_end, spec_trim_snapshot, spec_trim_start};
pub use protection::Protection;
pub use query::{query, query_range, QueryIter};
pub use query::{
    lemma_window_items_overlap, spec_query_items, spec_query_start, spec_query_upper,
    spec_window_items,
};
pub use util::round_to_page_boundaries;
pub use util::lemma_round_covers;
pub use util::spec_footprint;
pub use page_view::{spec_protection_union, spec_target, Access, PageView, RegionMeta};

verus! {

/// A descriptor for a mapped memory region.
///
/// The region encompasses zero or more pages (some systems can report
/// null-sized entries). Addresses are carried as plain integers; this
/// layer never dereferences them.
#[derive(Debug, Clone, Copy, PartialEq, Eq, Structural)]
pub struct Region {
    /// Base address of the region.
    pub base: usize,
    /// Whether the region is reserved (address space without backing
    /// storage); only ever true on systems that distinguish reservation
    /// from commitment.
    pub reserved: bool,
    /// Whether the region is guarded or not.
    pub guarded: bool,
    /// Protection of the region.
    pub protection: Protection,
    /// Whether the region is shared with other processes or not.
    pub shared: bool,
    /// Size of the region in bytes (multiple of the page size).
    pub size: usize,
}

impl Region {
    /// The enclosing range `[base, base + size)` never wraps the address
    /// space.
    pub open spec fn wf(self) -> bool {
        self.base + self.size <= usize::MAX
    }

    /// Returns the region's base address.
    ///
    /// The address is always aligned to the operating system's page size.
    pub fn as_ptr(&self) -> (r: usize)
        ensures
            r == self.base,
    {
        self.base
    }

    /// Returns the region's base address for mutation through a raw view.
    pub fn as_mut_ptr(&mut self) -> (r: usize)
        ensures
            r == old(self).base,
            *final(self) == *old(self),
    {
        self.base
    }

    /// Returns the bounds spanning the region's address space.
    ///
    /// The returned pair is a half-open range: the second address points one
    /// past the last byte of the region, so an empty region is represented by
    /// two equal addresses and the difference of the two is the region's
    /// size. The upper bound saturates at the top of the address space.
    pub fn as_range(&self) -> (r: (usize, usize))
        ensures
            r.0 == self.base,
            r.1 == if self.base + self.size <= usize::MAX {
                self.base + self.size
            } else {
                usize::MAX as int
            },
    {
        if self.size <= usize::MAX - self.base {
            (self.base, self.base + self.size)
        } else {
            (self.base, usize::MAX)
        }
    }

    /// Returns the bounds spanning the region's address space, for reading.
    pub fn as_ptr_range(&self) -> (r: (usize, usize))
        ensures
            r.0 == self.base,
            r.1 == if self.base + self.size <= usize::MAX {
                self.base + self.size
            } else {
                usize::MAX as int
            },
    {
        self.as_range()
    }

    /// Returns the bounds spanning the region's address space, for mutation.
    pub fn as_mut_ptr_range(&mut self) -> (r: (usize, usize))
        ensures
            r.0 == old(self).base,
            r.1 == if old(self).base + old(self).size <= usize::MAX {
                old(self).base + old(self).size
            } else {
                usize::MAX as int
            },
            *final(self) == *old(self),
    {
        self.as_range()
    }

    /// Returns whether the region is committed or not.
    ///
    /// This is true on all operating systems except for reserved pages on
    /// systems that distinguish reservation from commitment.
    pub fn is_committed(&self) -> (r: bool)
        ensures
            r == !self.reserved,
    {
        !self.reserved
    }

    /// Returns whether the region is readable or not.
    pub fn is_readable(&self) -> (r: bool)
        ensures
            r == self.protection.is_read(),
    {
        self.protection.contains(Protection::READ)
    }

    /// Returns whether the region is writable or not.
    pub fn is_writable(&self) -> (r: bool)
        ensures
            r == self.protection.is_write(),
    {
        self.protection.contains(Protection::WRITE)
    }

    /// Returns whether the region is executable or not.
    pub fn is_executable(&self) -> (r: bool)
        ensures
            r == self.protection.is_execute(),
    {
        self.protection.contains(Protection::EXECUTE)
    }

    /// Returns whether the region is guarded or not.
    pub fn is_guarded(&self) -> (r: bool)
        ensures
            r == self.guarded,
    {
        self.guarded
    }

    /// Returns whether the region is shared between processes or not.
    pub fn is_shared(&self) -> (r: bool)
        ensures
            r == self.shared,
    {
        self.shared
    }

    /// Returns the size of the region in bytes.
    ///
    /// The size is always a multiple of the operating system's page size.
    pub fn len(&self) -> (r: usize)
        ensures
            r == self.size,
    {
        self.size
    }

    /// Returns whether the region is empty or not.
    pub fn is_empty(&self) -> (r: bool)
        ensures
            r == (self.size == 0),
    {
        self.size == 0
    }

    /// Returns the protection attributes of the region.
    pub fn protection(&self) -> (r: Protection)
        ensures
            r == self.protection,
    {
        self.protection
    }

    /// Returns the region's lower bound.
    pub fn lower(&self) -> (r: usize)
        ensures
            r == self.base,
    {
        self.base
    }

    /// Returns the region's upper bound.
    pub fn upper(&self) -> (r: usize)
        requires
            self.wf(),
        ensures
            r == self.base + self.size,
    {
        self.base + self.size
    }
}

impl Default for Region {
    /// The default region is empty, unprotected and based at the null
    /// address.
    fn default() -> (r: Self)
        ensures
            r.base == 0,
            !r.reserved,
            !r.guarded,
            r.protection == Protection::NONE,
            !r.shared,
            r.size == 0,
    {
        Region {
            base: 0,
            reserved: false,
            guarded: false,
            protection: Protection::NONE,
            shared: false,
            size: 0,
        }
    }
}

} // verus!
