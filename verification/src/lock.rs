//! The bookkeeping behind scoped memory locks.

use vstd::prelude::*;

verus! {

/// A scoped lock.
///
/// The guard owns the page-rounded range that was pinned to RAM. Whoever
/// holds the guard unpins exactly that range, once, when the guard's scope
/// ends; pinning has no other previous state to restore, so no snapshot is
/// needed.
#[must_use]
pub struct LockGuard {
    /// The pinned range's base address.
    pub address: usize,
    /// The pinned range's size in bytes.
    pub size: usize,
}

impl LockGuard {
    /// Wraps a pinned range in a guard.
    pub fn new(address: usize, size: usize) -> (r: LockGuard)
        ensures
            r.address == address,
            r.size == size,
    {
        LockGuard { address, size }
    }

    /// The pinned range's base address.
    pub fn address(&self) -> (r: usize)
        ensures
            r == self.address,
    {
        self.address
    }

    /// The pinned range's size in bytes.
    pub fn len(&self) -> (r: usize)
        ensures
            r == self.size,
    {
        self.size
    }
}

} // verus!
