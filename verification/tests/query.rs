use region::{query, query_range, Error, Protection, Region};

const PZ: usize = 4096;

/// Three adjacent pages with protections `[READ, READ_EXECUTE, READ]`.
const THREE_PAGES: &str = "00001000-00002000 r--p 00000000 00:00 0\n\
00002000-00003000 r-xp 00000000 00:00 0\n\
00003000-00004000 r--p 00000000 00:00 0\n";

fn regions_of(maps: &str, address: usize, size: usize) -> Vec<Region> {
    let mut iter = query_range(maps, address, size, PZ).unwrap();
    let mut out = Vec::new();
    while let Some(item) = iter.next() {
        out.push(item.unwrap());
    }
    out
}

#[test]
fn query_returns_unmapped_for_oob_address() {
    assert!(matches!(query(THREE_PAGES, 0, PZ), Err(Error::UnmappedRegion)));
    assert!(matches!(query(THREE_PAGES, usize::MAX, PZ), Err(Error::UnmappedRegion)));
}

#[test]
fn query_is_not_off_by_one() {
    let page_mid = 0x2000;
    let region = query(THREE_PAGES, page_mid, PZ).unwrap();

    assert_eq!(region.protection(), Protection::READ_EXECUTE);
    assert_eq!(region.len(), PZ);

    let region = query(THREE_PAGES, page_mid - 1, PZ).unwrap();

    assert_eq!(region.protection(), Protection::READ);
    assert_eq!(region.len(), PZ);
}

#[test]
fn query_reports_malformed_listings() {
    let maps = "not a mapping\n";
    assert!(matches!(
        query(maps, 0, PZ),
        Err(Error::ProcfsInput(line)) if line == "not a mapping"
    ));
}

#[test]
fn query_range_does_not_return_unmapped_regions() {
    let regions = regions_of(THREE_PAGES, 0, 1);
    assert!(regions.is_empty());
}

#[test]
fn query_range_rejects_zero_size() {
    assert!(matches!(
        query_range(THREE_PAGES, 0x1000, 0, PZ),
        Err(Error::InvalidParameter("size"))
    ));
}

#[test]
fn query_range_returns_both_regions_for_straddling_range() {
    let maps = "00001000-00002000 r-xp 00000000 00:00 0\n\
00002000-00003000 rw-p 00000000 00:00 0\n";
    let pages = [Protection::READ_EXECUTE, Protection::READ_WRITE];

    // Query an area that overlaps both pages.
    let regions = regions_of(maps, 0x2000 - 1, 2);

    assert_eq!(regions.len(), pages.len());
    for (page, region) in pages.iter().zip(regions.iter()) {
        assert_eq!(*page, region.protection());
    }
}

#[test]
fn query_range_has_inclusive_lower_and_exclusive_upper_bound() {
    let maps = "00001000-00002000 r--p 00000000 00:00 0\n\
00002000-00003000 rw-p 00000000 00:00 0\n\
00003000-00004000 r--p 00000000 00:00 0\n";

    let regions = regions_of(maps, 0x1000, PZ);
    assert_eq!(regions.len(), 1);
    assert_eq!(regions[0].protection(), Protection::READ);

    let regions = regions_of(maps, 0x1000, PZ + 1);
    assert_eq!(regions.len(), 2);
    assert_eq!(regions[0].protection(), Protection::READ);
    assert_eq!(regions[1].protection(), Protection::READ_WRITE);
}

#[test]
fn query_range_can_iterate_over_entire_process() {
    let maps = "00001000-00002000 r--p 00000000 00:00 0\n\
00002000-00003000 rw-p 00000000 00:00 0\n\
00004000-00006000 r-xp 00000000 00:00 0\n\
00007000-00008000 rw-p 00000000 00:00 0\n\
00008000-00009000 r--p 00000000 00:00 0\n\
0000a000-0000b000 rw-p 00000000 00:00 0\n";
    let regions = regions_of(maps, 0, usize::MAX);
    let (r, rw, rx) = (
        Protection::READ,
        Protection::READ_WRITE,
        Protection::READ_EXECUTE,
    );

    assert!(regions.iter().any(|region| region.protection() == r));
    assert!(regions.iter().any(|region| region.protection() == rw));
    assert!(regions.iter().any(|region| region.protection() == rx));
    assert!(regions.len() > 5);
}

#[test]
fn query_range_iterator_is_fused_after_exhaustion() {
    let maps = "00001000-00002000 r--p 00000000 00:00 0\n\
00002000-00003000 rw-p 00000000 00:00 0\n";
    let mut iter = query_range(maps, 0x1000, PZ + 1, PZ).unwrap();

    assert_eq!(
        iter.next().transpose().unwrap().map(|r| r.protection()),
        Some(Protection::READ)
    );
    assert_eq!(
        iter.next().transpose().unwrap().map(|r| r.protection()),
        Some(Protection::READ_WRITE)
    );
    assert_eq!(iter.next().transpose().unwrap(), None);
    assert_eq!(iter.next().transpose().unwrap(), None);
}

#[test]
fn query_range_iterator_is_fused_after_error() {
    let maps = "00001000-00002000 r--p 00000000 00:00 0\n\
garbage\n\
00002000-00003000 rw-p 00000000 00:00 0\n";
    let mut iter = query_range(maps, 0, usize::MAX, PZ).unwrap();

    assert_eq!(
        iter.next().unwrap().unwrap().protection(),
        Protection::READ
    );
    assert!(matches!(
        iter.next(),
        Some(Err(Error::ProcfsInput(line))) if line == "garbage"
    ));
    assert!(iter.next().is_none());
    assert!(iter.next().is_none());
}

#[test]
fn query_range_total_coverage_is_kept_over_merging() {
    // Two adjacent pages with identical protection may be reported merged
    // or split; the coverage of the queried window is the same either way.
    let split = "00001000-00002000 rw-p 00000000 00:00 0\n\
00002000-00003000 rw-p 00000000 00:00 0\n";
    let merged = "00001000-00003000 rw-p 00000000 00:00 0\n";

    let split_regions = regions_of(split, 0x1000, 2 * PZ);
    let merged_regions = regions_of(merged, 0x1000, 2 * PZ);

    assert_eq!(split_regions.len(), 2);
    assert_eq!(merged_regions.len(), 1);
    assert_eq!(split_regions.iter().map(Region::len).sum::<usize>(), 2 * PZ);
    assert_eq!(merged_regions.iter().map(Region::len).sum::<usize>(), 2 * PZ);
}

#[test]
fn query_upper_bound_is_reported() {
    let iter = query_range(THREE_PAGES, 0x1000, PZ, PZ).unwrap();
    assert_eq!(iter.upper_bound(), 0x2000);
}
