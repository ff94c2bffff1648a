use region::{trim_snapshot, ProtectGuard, Protection, Region};

const PZ: usize = 4096;

fn region(base: usize, size: usize, protection: Protection) -> Region {
    Region {
        base,
        size,
        protection,
        guarded: false,
        shared: false,
        reserved: false,
    }
}

#[test]
fn trim_cuts_first_and_last_entries_to_the_window() {
    // Two regions of two pages each; the window covers the second half of
    // the first and the first half of the second.
    let snapshot = vec![
        region(0x1000, 2 * PZ, Protection::READ_WRITE),
        region(0x3000, 2 * PZ, Protection::READ_EXECUTE),
    ];
    let trimmed = trim_snapshot(snapshot, 0x2000, 2 * PZ);

    assert_eq!(trimmed.len(), 2);
    assert_eq!(trimmed[0].as_range(), (0x2000, 0x3000));
    assert_eq!(trimmed[0].protection(), Protection::READ_WRITE);
    assert_eq!(trimmed[1].as_range(), (0x3000, 0x4000));
    assert_eq!(trimmed[1].protection(), Protection::READ_EXECUTE);
}

#[test]
fn trim_cuts_a_single_entry_on_both_sides() {
    // One large region around a one-page window: the snapshot must shrink
    // to exactly the window, or dropping the guard would revert bytes the
    // caller never asked about.
    let snapshot = vec![region(0x1000, 5 * PZ, Protection::READ)];
    let trimmed = trim_snapshot(snapshot, 0x3000, PZ);

    assert_eq!(trimmed.len(), 1);
    assert_eq!(trimmed[0].as_range(), (0x3000, 0x4000));
    assert_eq!(trimmed[0].protection(), Protection::READ);
}

#[test]
fn trim_keeps_interior_entries_verbatim() {
    let snapshot = vec![
        region(0x1000, PZ, Protection::READ),
        region(0x2000, PZ, Protection::READ_WRITE),
        region(0x3000, PZ, Protection::READ),
    ];
    let trimmed = trim_snapshot(snapshot.clone(), 0x1000, 3 * PZ);

    assert_eq!(trimmed, snapshot);
}

#[test]
fn trim_leaves_entries_inside_the_window_alone() {
    let snapshot = vec![region(0x2000, PZ, Protection::NONE)];
    let trimmed = trim_snapshot(snapshot.clone(), 0x1000, 4 * PZ);
    assert_eq!(trimmed, snapshot);
}

#[test]
fn trim_of_an_empty_snapshot_is_empty() {
    let trimmed = trim_snapshot(Vec::new(), 0x1000, PZ);
    assert!(trimmed.is_empty());
}

#[test]
fn protect_guard_owns_its_snapshot() {
    let snapshot = vec![
        region(0x1000, PZ, Protection::READ),
        region(0x2000, PZ, Protection::READ_WRITE),
    ];
    let guard = ProtectGuard::new(snapshot.clone());
    assert_eq!(guard.regions(), &snapshot);
}
