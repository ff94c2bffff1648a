//! The snapshot bookkeeping behind scoped protection changes.
//!
//! A temporary protection change snapshots every region that the requested
//! window overlaps, applies the new protection, and hands out a guard. The
//! snapshot must be trimmed to the window first: the first region may truly
//! start before the window and the last may reach beyond it, and restoring
//! protection outside the requested bytes would corrupt unrelated memory.

use vstd::prelude::*;
use crate::Region;

verus! {

/// The first snapshot entry, moved up to the window's start when it begins
/// earlier. An entry that ends before the window's start shrinks to an
/// empty range at the start.
pub open spec fn spec_trim_start(region: Region, lo: int) -> Region {
    if region.base >= lo {
        region
    } else {
        Region {
            base: lo as usize,
            size: if region.base + region.size >= lo {
                (region.base + region.size - lo) as usize
            } else {
                0usize
            },
            ..region
        }
    }
}

/// The last snapshot entry, cut off at the window's end when it reaches
/// further. An entry that starts past the window's end shrinks to an empty
/// range at its own base.
pub open spec fn spec_trim_end(region: Region, hi: int) -> Region {
    if region.base + region.size <= hi {
        region
    } else {
        Region {
            size: if hi >= region.base {
                (hi - region.base) as usize
            } else {
                0usize
            },
            ..region
        }
    }
}

/// The snapshot with its first entry trimmed to the window's start and its
/// last entry trimmed to the window's end; interior entries are kept
/// verbatim.
pub open spec fn spec_trim_snapshot(regions: Seq<Region>, lo: int, hi: int) -> Seq<Region> {
    if regions.len() == 0 {
        regions
    } else {
        let stage = regions.update(0, spec_trim_start(regions[0], lo));
        stage.update(stage.len() - 1, spec_trim_end(stage.last(), hi))
    }
}

/// Whether the entries lie in increasing address order without overlapping
/// one another: every entry ends at or before every later entry starts.
pub open spec fn spec_ordered(regions: Seq<Region>) -> bool {
    forall|i: int, j: int|
        0 <= i < j < regions.len() ==> (#[trigger] regions[i]).base + regions[i].size
            <= (#[trigger] regions[j]).base
}

/// Trims a snapshot to the window `[address, address + size)`.
///
/// The first entry is moved up so it starts exactly at the window's start
/// (not at its own true start, which may lie earlier), the last entry is
/// cut so it ends exactly at the window's end, and interior entries are
/// kept verbatim.
pub fn trim_snapshot(regions: Vec<Region>, address: usize, size: usize) -> (r: Vec<Region>)
    requires
        address + size <= usize::MAX,
        forall|i: int| 0 <= i < regions@.len() ==> (#[trigger] regions@[i]).wf(),
    ensures
        r@ == spec_trim_snapshot(regions@, address as int, address + size),
{
    let ghost orig = regions@;
    let mut regions = regions;
    let hi = address + size;
    let n = regions.len();
    if n == 0 {
        return regions;
    }
    let first = regions[0];
    if first.base < address {
        let end = first.base + first.size;
        let trimmed_size = if end >= address {
            end - address
        } else {
            0
        };
        regions[0] = Region { base: address, size: trimmed_size, ..first };
    }
    proof {
        assert(regions@ =~= orig.update(0, spec_trim_start(orig[0], address as int)));
    }
    let last = regions[n - 1];
    let last_end = last.base + last.size;
    if last_end > hi {
        let trimmed_size = if hi >= last.base {
            hi - last.base
        } else {
            0
        };
        regions[n - 1] = Region { size: trimmed_size, ..last };
    }
    proof {
        let stage = orig.update(0, spec_trim_start(orig[0], address as int));
        assert(regions@ =~= stage.update(stage.len() - 1, spec_trim_end(stage.last(), hi as int)));
    }
    regions
}

/// Trimming confines a snapshot exactly to its window.
///
/// For a snapshot whose entries are ordered, do not wrap, and each overlap
/// the window `[lo, hi)` — which is what a range query over that window
/// reports — every trimmed entry keeps the protection and the other
/// attributes of its original, and its range becomes exactly the original
/// range intersected with the window. Restoring the trimmed snapshot thus
/// touches every byte of the window that was mapped, and nothing outside
/// the window.
pub proof fn lemma_trim_confines(regions: Seq<Region>, lo: int, hi: int)
    requires
        0 <= lo <= hi <= usize::MAX,
        forall|i: int| 0 <= i < regions.len() ==> (#[trigger] regions[i]).wf(),
        spec_ordered(regions),
        forall|i: int|
            0 <= i < regions.len() ==> (#[trigger] regions[i]).base < hi && regions[i].base
                + regions[i].size > lo,
    ensures
        spec_trim_snapshot(regions, lo, hi).len() == regions.len(),
        forall|i: int|
            0 <= i < regions.len() ==> {
                let t = #[trigger] spec_trim_snapshot(regions, lo, hi)[i];
                &&& t.protection == regions[i].protection
                &&& t.guarded == regions[i].guarded
                &&& t.shared == regions[i].shared
                &&& t.reserved == regions[i].reserved
                &&& t.base == (if regions[i].base >= lo {
                    regions[i].base as int
                } else {
                    lo
                })
                &&& t.base + t.size == (if regions[i].base + regions[i].size <= hi {
                    regions[i].base + regions[i].size
                } else {
                    hi
                })
                &&& t.wf()
            },
{
    let n = regions.len() as int;
    let trimmed = spec_trim_snapshot(regions, lo, hi);
    assert forall|i: int| 0 <= i < n implies {
        let t = #[trigger] trimmed[i];
        &&& t.protection == regions[i].protection
        &&& t.guarded == regions[i].guarded
        &&& t.shared == regions[i].shared
        &&& t.reserved == regions[i].reserved
        &&& t.base == (if regions[i].base >= lo {
            regions[i].base as int
        } else {
            lo
        })
        &&& t.base + t.size == (if regions[i].base + regions[i].size <= hi {
            regions[i].base + regions[i].size
        } else {
            hi
        })
        &&& t.wf()
    } by {
        let r = regions[i];
        if 0 < i {
            assert(regions[i - 1].base + regions[i - 1].size <= r.base);
            assert(r.base >= lo);
        }
        if i + 1 < n {
            assert(r.base + r.size <= regions[i + 1].base);
            assert(r.base + r.size <= hi);
        }
        if n == 1 {
            assert(trimmed[0] == spec_trim_end(spec_trim_start(r, lo), hi));
        } else if i == 0 {
            assert(trimmed[0] == spec_trim_start(r, lo));
        } else if i == n - 1 {
            assert(trimmed[i] == spec_trim_end(r, hi));
        } else {
            assert(trimmed[i] == r);
        }
    }
}

/// A scoped protection guard.
///
/// The guard owns the trimmed snapshot of `(base, size, protection)`
/// entries that describes exactly the byte range a temporary protection
/// change covered. Whoever holds the guard undoes the change by restoring
/// each entry's protection, in order, exactly once, when the guard's scope
/// ends.
#[must_use]
pub struct ProtectGuard {
    /// The trimmed snapshot to restore.
    pub regions: Vec<Region>,
}

impl ProtectGuard {
    /// Wraps a trimmed snapshot in a guard.
    pub fn new(regions: Vec<Region>) -> (r: ProtectGuard)
        ensures
            r.regions@ == regions@,
    {
        ProtectGuard { regions }
    }

    /// The snapshot entries to restore, in order.
    pub fn regions(&self) -> (r: &Vec<Region>)
        ensures
            r@ == self.regions@,
    {
        &self.regions
    }
}

} // verus!
