//! The unified query iterator and the public read operations.

use vstd::prelude::*;
use crate::error::Error;
use crate::os::linux;
use crate::page;
use crate::util;
use crate::Region;

verus! {

/// The items that a walk over a maps listing yields for the address window
/// `[origin, upper)`, starting from line `i`: the regions that overlap the
/// window, in listing order. A region that ends at or before the window's
/// start is skipped; the first region that starts at or after the window's
/// end stops the walk; a line that fails to parse yields its text as the
/// one final item.
pub open spec fn spec_window_items(lines: Seq<Seq<char>>, i: int, origin: int, upper: int) -> Seq<
    Result<Region, Seq<char>>,
>
    decreases lines.len() - i,
    when 0 <= i <= lines.len()
{
    if i >= lines.len() {
        Seq::empty()
    } else {
        match linux::spec_parse_line(lines[i]) {
            None => seq![Err(lines[i])],
            Some(region) => {
                if region.base + region.size <= origin {
                    spec_window_items(lines, i + 1, origin, upper)
                } else if region.base >= upper {
                    Seq::empty()
                } else {
                    seq![Ok(region)] + spec_window_items(lines, i + 1, origin, upper)
                }
            },
        }
    }
}

/// An iterator over the [`Region`]s that overlap an address window.
///
/// The iterator walks a maps listing, skips the regions that lie entirely
/// before the window, stops at the first region at or after the window's
/// end, and fuses: after the first error, and after exhaustion, it yields
/// nothing further.
pub struct QueryIter {
    /// The lines of the maps listing being walked.
    pub lines: Vec<String>,
    /// The next line to look at.
    pub index: usize,
    /// The window's inclusive lower bound.
    pub origin: usize,
    /// The window's exclusive upper bound.
    pub upper_bound: usize,
    /// Whether the walk has ended for good.
    pub fused: bool,
}

impl QueryIter {
    /// The iterator's position lies within its listing.
    pub open spec fn wf(self) -> bool {
        self.index <= self.lines@.len()
    }

    /// The lines of the listing the iterator walks.
    pub open spec fn lines_view(self) -> Seq<Seq<char>> {
        self.lines@.map_values(|l: String| l@)
    }

    /// The items the iterator has yet to yield.
    pub open spec fn remaining(self) -> Seq<Result<Region, Seq<char>>> {
        if self.fused {
            Seq::empty()
        } else {
            spec_window_items(
                self.lines_view(),
                self.index as int,
                self.origin as int,
                self.upper_bound as int,
            )
        }
    }

    /// Creates an iterator over the regions of the given maps listing that
    /// overlap `[origin, origin + size)`; the window's end saturates at the
    /// top of the address space.
    pub fn new(maps: &str, origin: usize, size: usize) -> (r: QueryIter)
        ensures
            r.wf(),
            !r.fused,
            r.index == 0,
            r.origin == origin,
            r.upper_bound == if origin + size <= usize::MAX {
                origin + size
            } else {
                usize::MAX as int
            },
            r.lines_view() == linux::spec_lines(maps@),
    {
        let upper_bound = if size <= usize::MAX - origin {
            origin + size
        } else {
            usize::MAX
        };
        QueryIter { lines: linux::split_lines(maps), index: 0, origin, upper_bound, fused: false }
    }

    /// Returns the window's exclusive upper bound.
    pub fn upper_bound(&self) -> (r: usize)
        ensures
            r == self.upper_bound,
    {
        self.upper_bound
    }

    /// Advances the iterator and returns the next region.
    ///
    /// If the iterator has been exhausted (all regions of the window have
    /// been seen), or once an error has been yielded, every further call
    /// returns nothing: the error is the last item before the iterator
    /// fuses.
    pub fn next(&mut self) -> (r: Option<Result<Region, Error>>)
        requires
            old(self).wf(),
        ensures
            final(self).wf(),
            final(self).origin == old(self).origin,
            final(self).upper_bound == old(self).upper_bound,
            final(self).lines_view() == old(self).lines_view(),
            (r is None) == (old(self).remaining().len() == 0),
            r is None ==> final(self).remaining().len() == 0,
            r matches Some(item) ==> old(self).remaining().len() > 0 && final(self).remaining()
                == old(self).remaining().drop_first() && (old(self).remaining()[0] matches Ok(
                region,
            ) ==> item == Ok::<Region, Error>(region) && region.wf()) && (old(
                self,
            ).remaining()[0] matches Err(line) ==> item matches Err(e) && e matches
                Error::ProcfsInput(text) && text@ == line),
    {
        if self.fused {
            return None;
        }
        loop
            invariant
                self.wf(),
                !self.fused,
                self.origin == old(self).origin,
                self.upper_bound == old(self).upper_bound,
                self.lines_view() == old(self).lines_view(),
                self.lines@.len() == old(self).lines@.len(),
                old(self).remaining() == self.remaining(),
            decreases self.lines@.len() - self.index,
        {
            if self.index >= self.lines.len() {
                self.fused = true;
                return None;
            }
            let ghost lv = self.lines_view();
            let ghost idx = self.index as int;
            let line = self.lines[self.index].clone();
            proof {
                assert(lv[idx] == line@);
            }
            self.index = self.index + 1;
            match linux::parse_procfs_line(line.as_str()) {
                None => {
                    proof {
                        assert(spec_window_items(
                            lv,
                            idx,
                            self.origin as int,
                            self.upper_bound as int,
                        ) =~= seq![Err::<Region, Seq<char>>(lv[idx])]);
                        assert(seq![Err::<Region, Seq<char>>(lv[idx])].drop_first()
                            =~= Seq::<Result<Region, Seq<char>>>::empty());
                    }
                    self.fused = true;
                    return Some(Err(Error::ProcfsInput(line)));
                },
                Some(region) => {
                    let end = region.base + region.size;
                    if end <= self.origin {
                        proof {
                            assert(spec_window_items(
                                lv,
                                idx,
                                self.origin as int,
                                self.upper_bound as int,
                            ) == spec_window_items(
                                lv,
                                idx + 1,
                                self.origin as int,
                                self.upper_bound as int,
                            ));
                        }
                        continue ;
                    }
                    if region.base >= self.upper_bound {
                        proof {
                            assert(spec_window_items(
                                lv,
                                idx,
                                self.origin as int,
                                self.upper_bound as int,
                            ) =~= Seq::<Result<Region, Seq<char>>>::empty());
                        }
                        self.fused = true;
                        return None;
                    }
                    proof {
                        let tail = spec_window_items(
                            lv,
                            idx + 1,
                            self.origin as int,
                            self.upper_bound as int,
                        );
                        assert(spec_window_items(
                            lv,
                            idx,
                            self.origin as int,
                            self.upper_bound as int,
                        ) == seq![Ok::<Region, Seq<char>>(region)] + tail);
                        assert((seq![Ok::<Region, Seq<char>>(region)] + tail)[0] == Ok::<
                            Region,
                            Seq<char>,
                        >(region));
                        assert((seq![Ok::<Region, Seq<char>>(region)] + tail).drop_first()
                            =~= tail);
                    }
                    return Some(Ok(region));
                },
            }
        }
    }
}

/// Every region that a window walk yields does not wrap the address space
/// and overlaps the window: it ends strictly after the window's start and
/// begins strictly before its end.
///
/// This is what the trimming behind a scoped protection change asks of its
/// snapshot, so the regions a range query reports can feed it directly.
pub proof fn lemma_window_items_overlap(lines: Seq<Seq<char>>, i: int, origin: int, upper: int)
    requires
        0 <= i <= lines.len(),
    ensures
        forall|k: int|
            0 <= k < spec_window_items(lines, i, origin, upper).len() ==> match #[trigger] spec_window_items(
                lines,
                i,
                origin,
                upper,
            )[k] {
                Ok(region) => region.wf() && region.base + region.size > origin && region.base
                    < upper,
                Err(_) => true,
            },
    decreases lines.len() - i,
{
    if i < lines.len() {
        match linux::spec_parse_line(lines[i]) {
            None => {},
            Some(region) => {
                if region.base + region.size <= origin {
                    lemma_window_items_overlap(lines, i + 1, origin, upper);
                } else if region.base >= upper {
                } else {
                    lemma_window_items_overlap(lines, i + 1, origin, upper);
                    let items = spec_window_items(lines, i, origin, upper);
                    let tail = spec_window_items(lines, i + 1, origin, upper);
                    assert(items == seq![Ok::<Region, Seq<char>>(region)] + tail);
                    assert forall|k: int| 0 <= k < items.len() implies match #[trigger] items[k] {
                        Ok(r) => r.wf() && r.base + r.size > origin && r.base < upper,
                        Err(_) => true,
                    } by {
                        if k == 0 {
                            assert(items[0] == Ok::<Region, Seq<char>>(region));
                            linux::lemma_parse_line_wf(lines[i]);
                        } else {
                            assert(items[k] == tail[k - 1]);
                        }
                    }
                }
            },
        }
    }
}

/// The start of the page-aligned window that a query for the given address
/// range operates over.
pub open spec fn spec_query_start(address: int, page_size: int) -> int {
    page::spec_floor(address, page_size)
}

/// The end of the page-aligned window that a query for the given address
/// range operates over, saturated at the top of the address space.
pub open spec fn spec_query_upper(address: int, size: int, page_size: int) -> int {
    let a = page::spec_floor(address, page_size);
    let s = page::spec_ceil(util::spec_footprint(address, size, page_size), page_size);
    if a + s <= usize::MAX {
        a + s
    } else {
        usize::MAX as int
    }
}

/// The items that a query for the given address range yields on the given
/// maps listing.
pub open spec fn spec_query_items(maps: Seq<char>, address: int, size: int, page_size: int) -> Seq<
    Result<Region, Seq<char>>,
> {
    spec_window_items(
        linux::spec_lines(maps),
        0,
        spec_query_start(address, page_size),
        spec_query_upper(address, size, page_size),
    )
}

/// Queries a maps listing with an address, returning the region it resides
/// within.
///
/// The address is rounded down to the closest page boundary, and the
/// enclosing region may span multiple pages. If the queried address does
/// not reside within any mapped region of the listing, the result is
/// [`Error::UnmappedRegion`]; if the line describing the enclosing region
/// is malformed, the result is [`Error::ProcfsInput`] with that line.
pub fn query(maps: &str, address: usize, page_size: usize) -> (r: Result<Region, Error>)
    requires
        page_size > 0,
    ensures
        ({
            let items = spec_query_items(maps@, address as int, 1, page_size as int);
            &&& items.len() == 0 ==> (r matches Err(e) && e is UnmappedRegion)
            &&& items.len() > 0 ==> (items[0] matches Ok(region) ==> r == Ok::<Region, Error>(
                region,
            ) && region.wf())
            &&& items.len() > 0 ==> (items[0] matches Err(line) ==> (r matches Err(e) && e matches
            Error::ProcfsInput(text) && text@ == line))
        }),
{
    let (start, rounded) = match util::round_to_page_boundaries(address, 1, page_size) {
        Ok(pair) => pair,
        Err(e) => {
            proof {
                assert(false);
            }
            return Err(e);
        },
    };
    let mut regions = QueryIter::new(maps, start, rounded);
    match regions.next() {
        None => Err(Error::UnmappedRegion),
        Some(Ok(region)) => Ok(region),
        Some(Err(e)) => Err(e),
    }
}

/// Queries a maps listing for the regions that overlap the range
/// `[address, address + size)`.
///
/// The address is rounded down to the closest page boundary and the size
/// is rounded up relative to it; the window's end saturates at the top of
/// the address space, so the whole listing can be walked by passing the
/// null address and the largest size. The size may not be zero.
///
/// Only mapped regions are yielded: a gap inside the requested range shows
/// up as nonadjacent bounds of two consecutive items, not as an item of
/// its own. If an error is encountered during iteration, the error is the
/// last item yielded; thereafter the iterator is fused.
pub fn query_range(maps: &str, address: usize, size: usize, page_size: usize) -> (r: Result<
    QueryIter,
    Error,
>)
    requires
        page_size > 0,
    ensures
        (r is Err) == (size == 0),
        r matches Err(e) ==> e matches Error::InvalidParameter(p) && p@ == "size"@,
        r matches Ok(it) ==> it.wf() && it.remaining() == spec_query_items(
            maps@,
            address as int,
            size as int,
            page_size as int,
        ),
{
    let (start, rounded) = match util::round_to_page_boundaries(address, size, page_size) {
        Ok(pair) => pair,
        Err(e) => {
            return Err(e);
        },
    };
    Ok(QueryIter::new(maps, start, rounded))
}

} // verus!
