//! Validation shared by the public entry points.

use vstd::prelude::*;
use crate::error::Error;
use crate::page;

verus! {

/// The page residue of the address plus the size: the number of bytes the
/// requested range occupies, counted from the nearest page boundary below
/// the address. Saturates at the top of the address space.
pub open spec fn spec_footprint(address: int, size: int, page_size: int) -> int
    recommends
        page_size > 0,
{
    if address % page_size + size <= usize::MAX {
        address % page_size + size
    } else {
        usize::MAX as int
    }
}

/// Validates and rounds an address-size pair to their respective page
/// boundaries.
///
/// A zero size is rejected with [`Error::InvalidParameter`]; any other size
/// is accepted. The address is rounded down to its page boundary, and the
/// size is rounded up so that the rounded pair covers the requested range,
/// relative to the rounded address.
pub fn round_to_page_boundaries(address: usize, size: usize, page_size: usize) -> (r: Result<
    (usize, usize),
    Error,
>)
    requires
        page_size > 0,
    ensures
        size == 0 <==> r is Err,
        r matches Err(e) ==> e matches Error::InvalidParameter(p) && p@ == "size"@,
        r matches Ok(pair) ==> pair.0 == page::spec_floor(address as int, page_size as int)
            && pair.1 == page::spec_ceil(
            spec_footprint(address as int, size as int, page_size as int),
            page_size as int,
        ),
{
    if size == 0 {
        return Err(Error::InvalidParameter("size"));
    }
    let residue = address % page_size;
    let footprint = if size <= usize::MAX - residue {
        residue + size
    } else {
        usize::MAX
    };
    let rounded_size = page::ceil(footprint, page_size);
    Ok((page::floor(address, page_size), rounded_size))
}

/// Rounding to page boundaries covers the requested range: the rounded base
/// is page-aligned and at or below the address, the rounded size is
/// page-aligned, and base plus size reaches at least one byte past the end
/// of the requested range.
///
/// The law asks that the footprint stays far enough below the top of the
/// address space that no rounding step saturates; close to the very top the
/// rounded range is clipped instead of wrapping.
pub proof fn lemma_round_covers(address: int, size: int, page_size: int)
    requires
        page_size > 0,
        0 <= address <= usize::MAX,
        0 < size,
        address % page_size + size + page_size <= usize::MAX,
    ensures
        ({
            let a = page::spec_floor(address, page_size);
            let s = page::spec_ceil(
                spec_footprint(address, size, page_size),
                page_size,
            );
            &&& a <= address
            &&& a % page_size == 0
            &&& s % page_size == 0
            &&& a + s >= address + size
        }),
{
    page::lemma_floor_basics(address, page_size);
    let residue = address % page_size;
    let f = spec_footprint(address, size, page_size);
    assert(f == residue + size);
    page::lemma_ceil_basics(f, page_size);
    let a = page::spec_floor(address, page_size);
    let s = page::spec_ceil(f, page_size);
    assert(s >= f);
    assert(a + s >= address + size);
}

} // verus!
