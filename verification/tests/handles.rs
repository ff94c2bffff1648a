use region::{Allocation, Error, LockGuard};

const PZ: usize = 4096;

#[test]
fn lock_guard_covers_the_pinned_range() {
    let guard = LockGuard::new(0x1000, 2 * PZ);
    assert_eq!(guard.address(), 0x1000);
    assert_eq!(guard.len(), 2 * PZ);
}

#[test]
fn allocation_reports_its_bounds() {
    let mut allocation = Allocation::from_raw_parts(0x7000, 2 * PZ);
    assert_eq!(allocation.as_ptr(), 0x7000);
    assert_eq!(allocation.as_mut_ptr(), 0x7000);
    assert_eq!(allocation.len(), 2 * PZ);
    assert_eq!(allocation.as_range(), (0x7000, 0x9000));
    assert_eq!(allocation.as_ptr_range(), (0x7000, 0x9000));
    assert_eq!(allocation.as_mut_ptr_range(), (0x7000, 0x9000));
}

#[test]
fn allocation_decomposes_into_raw_parts() {
    let allocation = Allocation::from_raw_parts(0x7000, PZ);
    assert_eq!(allocation.into_raw_parts(), (0x7000, PZ));
}

#[test]
fn allocation_range_saturates_at_the_top() {
    let allocation = Allocation::from_raw_parts(usize::MAX - PZ, 2 * PZ);
    assert_eq!(allocation.as_range(), (usize::MAX - PZ, usize::MAX));
}

#[test]
fn error_variants_carry_their_payloads() {
    assert!(matches!(Error::SystemCall(12), Error::SystemCall(code) if code == 12));
    assert!(matches!(Error::MachCall(-301), Error::MachCall(code) if code == -301));
    let text = format!("{:?}", Error::ProcfsInput(String::from("bad line")));
    assert!(text.contains("bad line"));
}

#[test]
fn error_text_names_the_kind_and_the_payload() {
    assert_eq!(Error::UnmappedRegion.to_text(), "Queried memory is unmapped");
    assert_eq!(
        Error::InvalidParameter("size").to_text(),
        "Invalid parameter value: size"
    );
    assert_eq!(
        Error::ProcfsInput(String::from("x-y")).to_text(),
        "Invalid procfs input: x-y"
    );
    assert_eq!(Error::SystemCall(0).to_text(), "System call failed with code 0");
    assert_eq!(Error::SystemCall(12).to_text(), "System call failed with code 12");
    assert_eq!(
        Error::MachCall(-301).to_text(),
        "Mach kernel call failed with code -301"
    );
    assert_eq!(
        Error::MachCall(i32::MIN).to_text(),
        "Mach kernel call failed with code -2147483648"
    );
}
