//! Page related functions.
//!
//! Every address computation is parameterized by the operating system's page
//! size, which the caller discovers once (e.g. through `sysconf` or the
//! system information call of its platform) and passes down.

use vstd::prelude::*;
use vstd::arithmetic::div_mod::{
    lemma_fundamental_div_mod, lemma_mod_division_less_than_divisor, lemma_mod_multiples_basic,
    lemma_div_pos_is_pos,
};
use vstd::arithmetic::mul::{lemma_mul_is_distributive_add, lemma_mul_is_commutative};

verus! {

/// The largest page-aligned address at or below `address`.
pub open spec fn spec_floor(address: int, page_size: int) -> int
    recommends
        page_size > 0,
{
    address - address % page_size
}

/// The smallest page-aligned address at or above `address`; when rounding up
/// would leave the address space, the address is rounded down instead.
pub open spec fn spec_ceil(address: int, page_size: int) -> int
    recommends
        page_size > 0,
{
    if address + page_size > usize::MAX {
        spec_floor(address, page_size)
    } else if address % page_size == 0 {
        address
    } else {
        spec_floor(address, page_size) + page_size
    }
}

/// The remainder of a division by a positive page size is a value below the
/// page size, and removing it leaves a page-aligned value no larger than the
/// dividend.
pub proof fn lemma_floor_basics(address: int, page_size: int)
    requires
        page_size > 0,
        0 <= address,
    ensures
        0 <= address % page_size < page_size,
        address % page_size <= address,
        0 <= spec_floor(address, page_size) <= address,
        spec_floor(address, page_size) % page_size == 0,
{
    lemma_fundamental_div_mod(address, page_size);
    lemma_mod_division_less_than_divisor(address, page_size);
    lemma_div_pos_is_pos(address, page_size);
    lemma_mod_multiples_basic(address / page_size, page_size);
    lemma_mul_is_commutative(address / page_size, page_size);
}

/// One page size above a floored address is again page-aligned.
proof fn lemma_next_multiple(address: int, page_size: int)
    requires
        page_size > 0,
        0 <= address,
    ensures
        (spec_floor(address, page_size) + page_size) % page_size == 0,
{
    let q = address / page_size;
    lemma_fundamental_div_mod(address, page_size);
    lemma_mul_is_distributive_add(page_size, q, 1);
    assert(spec_floor(address, page_size) + page_size == page_size * (q + 1));
    lemma_mod_multiples_basic(q + 1, page_size);
    lemma_mul_is_commutative(q + 1, page_size);
}

/// The value that `spec_ceil` returns is always page-aligned, and it is
/// never below the floored address nor more than one page size above it.
pub proof fn lemma_ceil_basics(address: int, page_size: int)
    requires
        page_size > 0,
        0 <= address <= usize::MAX,
    ensures
        spec_ceil(address, page_size) % page_size == 0,
        spec_floor(address, page_size) <= spec_ceil(address, page_size) <= spec_floor(
            address,
            page_size,
        ) + page_size,
        address + page_size <= usize::MAX ==> spec_ceil(address, page_size) >= address,
{
    lemma_floor_basics(address, page_size);
    lemma_next_multiple(address, page_size);
}

/// Rounds an address down to its closest page boundary.
pub fn floor(address: usize, page_size: usize) -> (r: usize)
    requires
        page_size > 0,
    ensures
        r == spec_floor(address as int, page_size as int),
        r <= address,
        r % page_size == 0,
{
    proof {
        lemma_floor_basics(address as int, page_size as int);
    }
    address - address % page_size
}

/// Rounds an address up to its closest page boundary.
///
/// When the address lies within one page size of the top of the address
/// space, rounding up could overflow; the address is rounded down instead of
/// wrapping.
pub fn ceil(address: usize, page_size: usize) -> (r: usize)
    requires
        page_size > 0,
    ensures
        r == spec_ceil(address as int, page_size as int),
        r % page_size == 0,
{
    proof {
        lemma_floor_basics(address as int, page_size as int);
        lemma_next_multiple(address as int, page_size as int);
    }
    if address <= usize::MAX - page_size {
        let residue = address % page_size;
        if residue == 0 {
            address
        } else {
            address - residue + page_size
        }
    } else {
        floor(address, page_size)
    }
}

/// Rounding is idempotent: flooring a ceiled address leaves it unchanged,
/// and ceiling a floored address stays within one page size of the floored
/// address.
pub proof fn lemma_rounding_idempotent(address: int, page_size: int)
    requires
        page_size > 0,
        0 <= address <= usize::MAX,
    ensures
        spec_floor(spec_ceil(address, page_size), page_size) == spec_ceil(address, page_size),
        spec_ceil(spec_floor(address, page_size), page_size) <= spec_floor(address, page_size)
            + page_size,
{
    lemma_floor_basics(address, page_size);
    lemma_ceil_basics(address, page_size);
    let f = spec_floor(address, page_size);
    let c = spec_ceil(address, page_size);
    assert(spec_floor(c, page_size) == c) by {
        lemma_floor_basics(c, page_size);
    }
    assert(spec_ceil(f, page_size) <= f + page_size) by {
        lemma_floor_basics(f, page_size);
    }
}

} // verus!
