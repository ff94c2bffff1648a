use region::page::{ceil, floor};
use region::round_to_page_boundaries;
use region::Error;

const PZ: usize = 4096;

#[test]
fn page_rounding_works() {
    assert_eq!(floor(1, PZ), 0);
    assert_eq!(floor(PZ, PZ), PZ);
    assert_eq!(floor(usize::MAX, PZ) % PZ, 0);

    assert_eq!(ceil(1, PZ), PZ);
    assert_eq!(ceil(PZ, PZ), PZ);
    assert_eq!(ceil(usize::MAX, PZ) % PZ, 0);
}

#[test]
fn page_rounding_is_idempotent() {
    // Flooring a ceiled address leaves it unchanged, and ceiling a floored
    // address stays within one page.
    for x in [0usize, 1, PZ - 1, PZ, PZ + 1, 5000, usize::MAX - PZ, usize::MAX] {
        let c = ceil(x, PZ);
        assert_eq!(floor(c, PZ), c);
        let f = floor(x, PZ);
        // Ceiling a floored (hence aligned) address leaves it unchanged,
        // which keeps it within one page of the floored address.
        assert_eq!(ceil(f, PZ), f);
    }
}

#[test]
fn page_ceil_saturates_at_the_top() {
    // Rounding up from within one page of the top would overflow; the
    // address is rounded down instead.
    assert_eq!(ceil(usize::MAX, PZ), usize::MAX - (PZ - 1));
    assert_eq!(ceil(usize::MAX - PZ, PZ), usize::MAX - (PZ - 1));
}

#[test]
fn round_to_page_boundaries_works() {
    let values = &[
        ((1, PZ), (0, PZ * 2)),
        ((0, PZ - 1), (0, PZ)),
        ((0, PZ + 1), (0, PZ * 2)),
        ((PZ - 1, 1), (0, PZ)),
        ((PZ + 1, PZ), (PZ, PZ * 2)),
        ((PZ, PZ), (PZ, PZ)),
    ];

    for ((before_address, before_size), (after_address, after_size)) in values {
        let (address, size) = round_to_page_boundaries(*before_address, *before_size, PZ).unwrap();
        assert_eq!((address, size), (*after_address, *after_size));
    }
}

#[test]
fn round_to_page_boundaries_rejects_zero_size() {
    // A zero size is rejected whatever the address.
    for address in [0usize, 1, PZ, usize::MAX] {
        assert!(matches!(
            round_to_page_boundaries(address, 0, PZ),
            Err(Error::InvalidParameter("size"))
        ));
    }
}

#[test]
fn round_to_page_boundaries_covers_the_request() {
    // The rounded pair covers the requested range with page-aligned bounds.
    for (address, size) in [(1usize, 1usize), (123, 45678), (PZ - 1, 2), (7 * PZ + 13, PZ)] {
        let (a, s) = round_to_page_boundaries(address, size, PZ).unwrap();
        assert!(a <= address);
        assert_eq!(a % PZ, 0);
        assert_eq!(s % PZ, 0);
        assert!(a + s >= address + size);
    }
}
