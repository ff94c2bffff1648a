use region::os::{freebsd, macos, openbsd, windows};
use region::{Error, Protection};

/// Builds one variable-size map entry with the given declared record
/// size, bounds, protection bits and entry type; every other field is
/// zero.
fn vm_entry(structsize: u32, start: u64, end: u64, protection: u32, etype: u32) -> Vec<u8> {
    let mut bytes = vec![0u8; structsize as usize];
    bytes[0..4].copy_from_slice(&structsize.to_le_bytes());
    bytes[4..8].copy_from_slice(&etype.to_le_bytes());
    bytes[8..16].copy_from_slice(&start.to_le_bytes());
    bytes[16..24].copy_from_slice(&end.to_le_bytes());
    bytes[56..60].copy_from_slice(&protection.to_le_bytes());
    bytes
}

#[test]
fn freebsd_vmmap_entries_are_walked_by_their_declared_size() {
    // Two records of different declared sizes: the walk must stride by
    // each record's own declaration, not by a compiled-in layout.
    let mut bytes = vm_entry(60, 0x1000, 0x3000, 0x1 | 0x2, 1);
    bytes.extend_from_slice(&vm_entry(96, 0x5000, 0x6000, 0x1 | 0x4, 2));

    let regions = freebsd::parse_vmmap(&bytes).unwrap();
    assert_eq!(regions.len(), 2);

    assert_eq!(regions[0].as_ptr(), 0x1000);
    assert_eq!(regions[0].len(), 0x2000);
    assert_eq!(regions[0].protection(), Protection::READ_WRITE);
    assert!(regions[0].is_shared());

    assert_eq!(regions[1].as_ptr(), 0x5000);
    assert_eq!(regions[1].len(), 0x1000);
    assert_eq!(regions[1].protection(), Protection::READ_EXECUTE);
    assert!(!regions[1].is_shared());
}

#[test]
fn freebsd_vmmap_rejects_malformed_buffers() {
    // A buffer that ends mid-record.
    assert!(matches!(
        freebsd::parse_vmmap(&vec![0u8; 59]),
        Err(Error::ProcfsInput(_))
    ));
    // A record whose declared size cannot hold the decoded fields.
    let mut small = vm_entry(60, 0, 0, 0, 0);
    small[0..4].copy_from_slice(&16u32.to_le_bytes());
    assert!(matches!(freebsd::parse_vmmap(&small), Err(Error::ProcfsInput(_))));
    // A record that declares more bytes than the buffer holds.
    let mut long = vm_entry(60, 0, 0, 0, 0);
    long[0..4].copy_from_slice(&128u32.to_le_bytes());
    assert!(matches!(freebsd::parse_vmmap(&long), Err(Error::ProcfsInput(_))));
    // An entry whose bounds are disordered.
    let disordered = vm_entry(60, 0x3000, 0x1000, 0, 0);
    assert!(matches!(freebsd::parse_vmmap(&disordered), Err(Error::ProcfsInput(_))));
    // An empty buffer holds no entries.
    assert!(freebsd::parse_vmmap(&Vec::new()).unwrap().is_empty());
}

#[test]
fn windows_query_steps_are_decoded() {
    // A committed read-write region.
    let region = windows::decode_region(
        0x1000,
        0x2000,
        windows::MEM_COMMIT,
        windows::PAGE_READWRITE,
        windows::MEM_PRIVATE,
    )
    .unwrap();
    assert_eq!(region.as_ptr(), 0x1000);
    assert_eq!(region.len(), 0x2000);
    assert!(region.is_committed());
    assert!(!region.is_guarded());
    assert!(!region.is_shared());
    assert_eq!(region.protection(), Protection::READ_WRITE);

    // A committed guard page keeps its protection; the guard state is
    // reported separately.
    let region = windows::decode_region(
        0x3000,
        0x1000,
        windows::MEM_COMMIT,
        windows::PAGE_READONLY | windows::PAGE_GUARD,
        windows::MEM_PRIVATE,
    )
    .unwrap();
    assert!(region.is_guarded());
    assert_eq!(region.protection(), Protection::READ);

    // A mapped (non-private) region is shared.
    let region =
        windows::decode_region(0x4000, 0x1000, windows::MEM_COMMIT, windows::PAGE_READONLY, 0)
            .unwrap();
    assert!(region.is_shared());
}

#[test]
fn windows_reserved_space_has_no_access() {
    // Reserved-but-uncommitted address space is reported as a region with
    // no access and no guard state, and as not committed.
    let region =
        windows::decode_region(0x5000, 0x2000, windows::MEM_RESERVE, 0, windows::MEM_PRIVATE)
            .unwrap();
    assert!(!region.is_committed());
    assert_eq!(region.protection(), Protection::NONE);
    assert!(!region.is_guarded());
}

#[test]
fn windows_query_windows_are_clamped_to_the_address_space() {
    // A window inside the application bounds is kept as it is.
    assert_eq!(windows::clamp_window(0x2000, 0x1000, 0x1000, 0x7FFF_0000), (0x2000, 0x3000));
    // A window below the lowest application address is raised to it.
    assert_eq!(windows::clamp_window(0, 0x1000, 0x1000, 0x7FFF_0000), (0x1000, 0x1000));
    // A window past the highest application address is cut at it, and the
    // end saturates instead of wrapping.
    assert_eq!(
        windows::clamp_window(0x7FFE_0000, usize::MAX, 0x1000, 0x7FFF_0000),
        (0x7FFE_0000, 0x7FFF_0000)
    );
}

#[test]
fn windows_free_space_is_skipped() {
    assert!(windows::decode_region(0x5000, 0x2000, windows::MEM_FREE, 0, 0).is_none());
}

#[test]
fn macos_query_steps_are_decoded() {
    let rw = macos::VM_PROT_READ | macos::VM_PROT_WRITE;
    let region = macos::decode_region(0x1000, 0x4000, rw, macos::SM_TRUESHARED, 0);
    assert_eq!(region.as_ptr(), 0x1000);
    assert_eq!(region.len(), 0x4000);
    assert_eq!(region.protection(), Protection::READ_WRITE);
    assert!(region.is_shared());
    assert!(!region.is_guarded());

    let region = macos::decode_region(0x9000, 0x1000, 0, 2, macos::VM_MEMORY_GUARD);
    assert_eq!(region.protection(), Protection::NONE);
    assert!(!region.is_shared());
    assert!(region.is_guarded());
}

#[test]
fn freebsd_map_entries_are_decoded() {
    let rx = freebsd::KVME_PROT_READ | freebsd::KVME_PROT_EXEC;
    let region = freebsd::decode_entry(0x2000, 0x5000, rx, freebsd::KVME_TYPE_DEFAULT);
    assert_eq!(region.as_ptr(), 0x2000);
    assert_eq!(region.len(), 0x3000);
    assert_eq!(region.protection(), Protection::READ_EXECUTE);
    assert!(region.is_shared());
}

#[test]
fn openbsd_map_entries_are_decoded() {
    let rw = openbsd::KVE_PROT_READ | openbsd::KVE_PROT_WRITE;
    let region = openbsd::decode_entry(0x2000, 0x3000, rw, openbsd::KVE_ET_COPYONWRITE);
    assert_eq!(region.as_ptr(), 0x2000);
    assert_eq!(region.len(), 0x1000);
    assert_eq!(region.protection(), Protection::READ_WRITE);
    assert!(!region.is_shared());

    let region = openbsd::decode_entry(0x4000, 0x4000, 0, 0);
    assert!(region.is_empty());
    assert!(region.is_shared());
}
