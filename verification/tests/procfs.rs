use region::os::linux::{parse_procfs_flags, parse_procfs_line};
use region::Protection;

#[test]
fn procfs_flags_are_parsed() {
    let rwx = Protection::READ_WRITE_EXECUTE;

    assert_eq!(parse_procfs_flags("r--s"), (Protection::READ, true));
    assert_eq!(parse_procfs_flags("rw-p"), (Protection::READ_WRITE, false));
    assert_eq!(parse_procfs_flags("r-xs"), (Protection::READ_EXECUTE, true));
    assert_eq!(parse_procfs_flags("rwxs"), (rwx, true));
    assert_eq!(parse_procfs_flags("--xp"), (Protection::EXECUTE, false));
    assert_eq!(parse_procfs_flags("-w-s"), (Protection::WRITE, true));
}

#[test]
fn procfs_regions_are_parsed() {
    let line = "00400000-00409000 r-xs 00000000 08:00 16088 /usr/bin/head";
    let region = parse_procfs_line(line).unwrap();

    assert_eq!(region.as_ptr(), 0x40_0000);
    assert_eq!(region.protection(), Protection::READ_EXECUTE);
    assert_eq!(region.len(), 0x9000);
    assert!(!region.is_guarded());
    assert!(region.is_shared());
}

#[test]
fn procfs_lines_without_trailing_columns_are_parsed() {
    let region = parse_procfs_line("1000-2000 rw-p").unwrap();
    assert_eq!(region.as_ptr(), 0x1000);
    assert_eq!(region.len(), 0x1000);
    assert_eq!(region.protection(), Protection::READ_WRITE);
    assert!(!region.is_shared());
}

#[test]
fn procfs_hex_case_and_null_size_are_parsed() {
    let region = parse_procfs_line("00A0f000-00a0F000 ---p 0 0:0 0").unwrap();
    assert_eq!(region.as_ptr(), 0xA0_F000);
    assert_eq!(region.len(), 0);
    assert_eq!(region.protection(), Protection::NONE);
}

#[test]
fn procfs_malformed_lines_are_rejected() {
    // No address column at all.
    assert!(parse_procfs_line("").is_none());
    assert!(parse_procfs_line("hello world").is_none());
    // No dash in the address column.
    assert!(parse_procfs_line("00400000 r-xp").is_none());
    // A bound that is not hexadecimal.
    assert!(parse_procfs_line("zz-40 rw-p").is_none());
    assert!(parse_procfs_line("40-zz rw-p").is_none());
    // Empty bounds around the dash.
    assert!(parse_procfs_line("-40 rw-p").is_none());
    assert!(parse_procfs_line("40- rw-p").is_none());
    // An upper bound below the lower bound.
    assert!(parse_procfs_line("9000-5000 rw-p").is_none());
    // A bound too large for the address space.
    assert!(parse_procfs_line("1ffffffffffffffff0-1ffffffffffffffff8 rw-p").is_none());
    // A missing permission column.
    assert!(parse_procfs_line("00400000-00409000").is_none());
    assert!(parse_procfs_line("00400000-00409000   ").is_none());
}

#[test]
fn procfs_whitespace_between_columns_is_skipped() {
    let region = parse_procfs_line("  1000-3000\t r--s rest ignored").unwrap();
    assert_eq!(region.as_ptr(), 0x1000);
    assert_eq!(region.len(), 0x2000);
    assert_eq!(region.protection(), Protection::READ);
    assert!(region.is_shared());
}
