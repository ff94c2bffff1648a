use region::os::illumos::{parse_map_record, parse_map_records, PRMAP_SIZE};
use region::{Error, Protection};

/// Builds one binary mapping record with the given address, size and
/// mapping flags; every other field is zero.
fn record(vaddr: u64, size: u64, mflags: u32) -> Vec<u8> {
    let mut bytes = vec![0u8; PRMAP_SIZE];
    bytes[0..8].copy_from_slice(&vaddr.to_le_bytes());
    bytes[8..16].copy_from_slice(&size.to_le_bytes());
    bytes[88..92].copy_from_slice(&mflags.to_le_bytes());
    bytes
}

#[test]
fn illumos_map_records_are_parsed() {
    // MA_READ | MA_WRITE | MA_SHARED.
    let mut bytes = record(0x40_0000, 0x9000, 0x4 | 0x2 | 0x8);
    // MA_READ | MA_EXEC, private.
    bytes.extend_from_slice(&record(0x7000_0000, 0x1000, 0x4 | 0x1));

    let regions = parse_map_records(&bytes).unwrap();
    assert_eq!(regions.len(), 2);

    assert_eq!(regions[0].as_ptr(), 0x40_0000);
    assert_eq!(regions[0].len(), 0x9000);
    assert_eq!(regions[0].protection(), Protection::READ_WRITE);
    assert!(regions[0].is_shared());
    assert!(!regions[0].is_guarded());

    assert_eq!(regions[1].as_ptr(), 0x7000_0000);
    assert_eq!(regions[1].len(), 0x1000);
    assert_eq!(regions[1].protection(), Protection::READ_EXECUTE);
    assert!(!regions[1].is_shared());
}

#[test]
fn illumos_single_record_is_parsed() {
    let bytes = record(0x1000, 0x2000, 0x4);
    let region = parse_map_record(&bytes, 0).unwrap();
    assert_eq!(region.as_ptr(), 0x1000);
    assert_eq!(region.len(), 0x2000);
    assert_eq!(region.protection(), Protection::READ);
}

#[test]
fn illumos_empty_map_file_has_no_records() {
    let regions = parse_map_records(&Vec::new()).unwrap();
    assert!(regions.is_empty());
}

#[test]
fn illumos_misaligned_map_file_is_rejected() {
    let bytes = vec![0u8; PRMAP_SIZE - 1];
    assert!(matches!(parse_map_records(&bytes), Err(Error::ProcfsInput(_))));
    let bytes = vec![0u8; PRMAP_SIZE + 1];
    assert!(matches!(parse_map_records(&bytes), Err(Error::ProcfsInput(_))));
}

#[test]
fn illumos_wrapping_record_is_rejected() {
    let bytes = record(u64::MAX - 0xFFF, 0x2000, 0x4);
    assert!(parse_map_record(&bytes, 0).is_none());
    assert!(matches!(parse_map_records(&bytes), Err(Error::ProcfsInput(_))));
}
