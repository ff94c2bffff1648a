//! Page-aligned views with protection bookkeeping.

use vstd::prelude::*;
use crate::error::Error;
use crate::protect;
use crate::protection::Protection;
use crate::query;
use crate::util;
use crate::Region;

verus! {

/// View protection access.
#[derive(Debug, Clone, Copy)]
pub enum Access {
    /// A new protection state.
    Type(Protection),
    /// The previous protection state.
    Previous,
    /// The initial protection state.
    Initial,
}

/// Bookkeeping for one region of a view: the region as the view sees it,
/// and the previous and initial protection of its pages.
#[derive(Debug, Clone, Copy, PartialEq, Eq, Structural)]
pub struct RegionMeta {
    /// The region, trimmed to the view's bounds.
    pub region: Region,
    /// The protection the region carried before the latest change.
    pub previous: Protection,
    /// The protection the region carried when the view was created.
    pub initial: Protection,
}

/// A view aligned to page boundaries.
///
/// A view is not aligned to regions; it uses the granularity of the OS's
/// page size. It is therefore useful when changing protection: only the
/// pages within the view are affected, instead of entire regions.
///
/// Beyond this, the view preserves the previous and the initial protection
/// state of all pages within it, which allows changing states freely while
/// still being able to restore them at a later stage. The view itself only
/// keeps the books; whoever owns the view issues the actual protection
/// calls, asking the view for each target and recording the outcome with
/// [`PageView::commit`].
pub struct PageView {
    /// The regions of the view, with their bookkeeping.
    pub regions: Vec<RegionMeta>,
}

/// The union of the protection attributes of the first `n` regions of a
/// view.
pub open spec fn spec_protection_union(metas: Seq<RegionMeta>, n: int) -> Protection
    decreases n,
    when 0 <= n <= metas.len()
{
    if n <= 0 {
        Protection::NONE
    } else {
        spec_protection_union(metas, n - 1).spec_union(metas[n - 1].region.protection)
    }
}

/// The protection that restoring `access` asks for, given the bookkeeping
/// of one region.
pub open spec fn spec_target(meta: RegionMeta, access: Access) -> Protection {
    match access {
        Access::Type(p) => p,
        Access::Previous => meta.previous,
        Access::Initial => meta.initial,
    }
}

/// A view's regions are non-empty, do not wrap, and lie in increasing
/// address order without overlap.
impl PageView {
    /// Well-formedness of the view's bookkeeping.
    pub open spec fn wf(self) -> bool {
        &&& self.regions@.len() > 0
        &&& forall|i: int|
            0 <= i < self.regions@.len() ==> (#[trigger] self.regions@[i]).region.wf()
        &&& forall|i: int, j: int|
            0 <= i < j < self.regions@.len() ==> (#[trigger] self.regions@[i]).region.base
                + self.regions@[i].region.size <= (#[trigger] self.regions@[j]).region.base
    }

    /// Constructs a new page view from the regions that a range query for
    /// `[address, address + size)` reported.
    ///
    /// The window is rounded exactly as the query rounds it: the address
    /// down to its page boundary and the size up, relative to the address.
    /// The first and last reported regions are trimmed to that window, so
    /// the view covers no byte outside it. A zero size is rejected, and a
    /// window that no reported region overlaps yields
    /// [`Error::UnmappedRegion`].
    pub fn new(regions: Vec<Region>, address: usize, size: usize, page_size: usize) -> (r: Result<
        PageView,
        Error,
    >)
        requires
            page_size > 0,
            forall|i: int| 0 <= i < regions@.len() ==> (#[trigger] regions@[i]).wf(),
            protect::spec_ordered(regions@),
            forall|i: int|
                0 <= i < regions@.len() ==> (#[trigger] regions@[i]).base
                    < query::spec_query_upper(address as int, size as int, page_size as int)
                    && regions@[i].base + regions@[i].size > query::spec_query_start(
                    address as int,
                    page_size as int,
                ),
        ensures
            size == 0 ==> (r matches Err(e) && e matches Error::InvalidParameter(p) && p@
                == "size"@),
            size > 0 && regions@.len() == 0 ==> (r matches Err(e) && e is UnmappedRegion),
            size > 0 && regions@.len() > 0 ==> (r matches Ok(view) && view.wf()
                && view.regions@.len() == regions@.len() && (forall|i: int|
                0 <= i < regions@.len() ==> {
                    let trimmed = protect::spec_trim_snapshot(
                        regions@,
                        query::spec_query_start(address as int, page_size as int),
                        query::spec_query_upper(address as int, size as int, page_size as int),
                    );
                    (#[trigger] view.regions@[i]).region == trimmed[i] && view.regions@[i].previous
                        == trimmed[i].protection && view.regions@[i].initial
                        == trimmed[i].protection
                })),
    {
        let ghost lo = query::spec_query_start(address as int, page_size as int);
        let ghost hi = query::spec_query_upper(address as int, size as int, page_size as int);
        let (start, rounded) = match util::round_to_page_boundaries(address, size, page_size) {
            Ok(pair) => pair,
            Err(e) => {
                return Err(e);
            },
        };
        if regions.len() == 0 {
            return Err(Error::UnmappedRegion);
        }
        let slack = usize::MAX - start;
        let span = if rounded <= slack {
            rounded
        } else {
            slack
        };
        proof {
            assert(start == lo && start + span == hi);
            protect::lemma_trim_confines(regions@, lo, hi);
        }
        let ghost orig = regions@;
        let trimmed = protect::trim_snapshot(regions, start, span);
        let n = trimmed.len();
        let mut metas: Vec<RegionMeta> = Vec::new();
        let mut i: usize = 0;
        while i < n
            invariant
                i <= n,
                n == trimmed@.len(),
                trimmed@ == protect::spec_trim_snapshot(orig, lo, hi),
                metas@.len() == i,
                forall|j: int|
                    0 <= j < i ==> (#[trigger] metas@[j]) == (RegionMeta {
                        region: trimmed@[j],
                        previous: trimmed@[j].protection,
                        initial: trimmed@[j].protection,
                    }),
            decreases n - i,
        {
            let region = trimmed[i];
            metas.push(RegionMeta { region, previous: region.protection, initial: region.protection });
            i = i + 1;
        }
        let view = PageView { regions: metas };
        proof {
            let trimmed_view = protect::spec_trim_snapshot(orig, lo, hi);
            assert forall|j: int| 0 <= j < view.regions@.len() implies (#[trigger] view.regions@[
            j]).region.wf() by {
                assert(view.regions@[j].region == trimmed_view[j]);
            }
            assert forall|i: int, j: int|
                0 <= i < j < view.regions@.len() implies (#[trigger] view.regions@[i]).region.base
                + view.regions@[i].region.size <= (#[trigger] view.regions@[j]).region.base by {
                assert(view.regions@[i].region == trimmed_view[i]);
                assert(view.regions@[j].region == trimmed_view[j]);
                assert(orig[i].base + orig[i].size <= orig[j].base);
            }
            assert(view.wf());
        }
        Ok(view)
    }

    /// Returns the protection of the pages within the view.
    ///
    /// The protection is only returned when every region of the view
    /// carries the same attributes as the first; otherwise nothing is
    /// returned.
    pub fn get_prot(&self) -> (r: Option<Protection>)
        requires
            self.wf(),
        ensures
            ({
                let folded = spec_protection_union(self.regions@, self.regions@.len() as int);
                r == if folded == self.regions@[0].region.protection {
                    Some(folded)
                } else {
                    Option::<Protection>::None
                }
            }),
    {
        let n = self.regions.len();
        let mut prot = Protection::NONE;
        let mut i: usize = 0;
        while i < n
            invariant
                i <= n,
                n == self.regions@.len(),
                prot == spec_protection_union(self.regions@, i as int),
            decreases n - i,
        {
            prot = prot.union(self.regions[i].region.protection);
            i = i + 1;
        }
        if prot == self.regions[0].region.protection {
            Some(prot)
        } else {
            None
        }
    }

    /// Returns the protection that restoring `access` asks for on region
    /// `index`: the given protection itself, the region's previous one, or
    /// its initial one.
    pub fn target(&self, index: usize, access: Access) -> (r: Protection)
        requires
            index < self.regions@.len(),
        ensures
            r == spec_target(self.regions@[index as int], access),
    {
        match access {
            Access::Type(p) => p,
            Access::Previous => self.regions[index].previous,
            Access::Initial => self.regions[index].initial,
        }
    }

    /// Records that the pages of region `index` now carry the protection
    /// that `access` names: the region's current protection becomes the
    /// previous one, the named protection becomes current, and the initial
    /// protection is kept.
    pub fn commit(&mut self, index: usize, access: Access)
        requires
            index < old(self).regions@.len(),
        ensures
            final(self).regions@.len() == old(self).regions@.len(),
            forall|j: int|
                0 <= j < old(self).regions@.len() && j != index ==> final(self).regions@[j] == old(
                    self,
                ).regions@[j],
            ({
                let m = old(self).regions@[index as int];
                final(self).regions@[index as int] == (RegionMeta {
                    region: Region { protection: spec_target(m, access), ..m.region },
                    previous: m.region.protection,
                    initial: m.initial,
                })
            }),
            old(self).wf() ==> final(self).wf(),
    {
        let meta = self.regions[index];
        let applied = match access {
            Access::Type(p) => p,
            Access::Previous => meta.previous,
            Access::Initial => meta.initial,
        };
        self.regions[index] = RegionMeta {
            region: Region { protection: applied, ..meta.region },
            previous: meta.region.protection,
            initial: meta.initial,
        };
        proof {
            assert forall|k: int| 0 <= k < self.regions@.len() implies (#[trigger] self.regions@[
            k]).region.base == old(self).regions@[k].region.base && self.regions@[k].region.size
                == old(self).regions@[k].region.size by {}
            if old(self).wf() {
                assert forall|i: int, j: int|
                    0 <= i < j < self.regions@.len() implies (#[trigger] self.regions@[
                i]).region.base + self.regions@[i].region.size <= (#[trigger] self.regions@[
                j]).region.base by {
                    assert(old(self).regions@[i].region.base + old(self).regions@[i].region.size
                        <= old(self).regions@[j].region.base);
                }
                assert forall|i: int| 0 <= i < self.regions@.len() implies (
                #[trigger] self.regions@[i]).region.wf() by {
                    assert(old(self).regions@[i].region.wf());
                }
            }
        }
    }

    /// Returns the view's base address.
    pub fn as_ptr(&self) -> (r: usize)
        requires
            self.wf(),
        ensures
            r == self.regions@[0].region.base,
    {
        self.regions[0].region.base
    }

    /// Returns the view's base address for mutation through a raw view.
    pub fn as_mut_ptr(&mut self) -> (r: usize)
        requires
            old(self).wf(),
        ensures
            r == old(self).regions@[0].region.base,
            *final(self) == *old(self),
    {
        self.regions[0].region.base
    }

    /// Returns the view's lower bound.
    pub fn lower(&self) -> (r: usize)
        requires
            self.wf(),
        ensures
            r == self.regions@[0].region.base,
    {
        self.regions[0].region.base
    }

    /// Returns the view's upper bound.
    pub fn upper(&self) -> (r: usize)
        requires
            self.wf(),
        ensures
            r == self.regions@.last().region.base + self.regions@.last().region.size,
    {
        let last = self.regions[self.regions.len() - 1].region;
        last.base + last.size
    }

    /// Returns the length of the view in bytes.
    pub fn len(&self) -> (r: usize)
        requires
            self.wf(),
        ensures
            r == self.regions@.last().region.base + self.regions@.last().region.size
                - self.regions@[0].region.base,
    {
        proof {
            lemma_view_span(self.regions@);
        }
        self.upper() - self.lower()
    }

    /// Returns whether this view is empty or not.
    pub fn is_empty(&self) -> (r: bool)
        requires
            self.wf(),
        ensures
            r == (self.regions@.last().region.base + self.regions@.last().region.size
                == self.regions@[0].region.base),
    {
        self.len() == 0
    }
}

/// An ordered, non-wrapping run of regions spans a forward range: its
/// first base never exceeds its last end.
proof fn lemma_view_span(metas: Seq<RegionMeta>)
    requires
        metas.len() > 0,
        forall|i: int| 0 <= i < metas.len() ==> (#[trigger] metas[i]).region.wf(),
        forall|i: int, j: int|
            0 <= i < j < metas.len() ==> (#[trigger] metas[i]).region.base + metas[i].region.size
                <= (#[trigger] metas[j]).region.base,
    ensures
        metas[0].region.base <= metas.last().region.base + metas.last().region.size,
{
    if metas.len() > 1 {
        assert(metas[0].region.base + metas[0].region.size <= metas[metas.len() - 1].region.base);
    }
}

} // verus!
