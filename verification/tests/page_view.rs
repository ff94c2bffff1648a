use region::{Access, Error, PageView, Protection, Region};

const PZ: usize = 4096;

fn region(base: usize, size: usize, protection: Protection) -> Region {
    Region {
        base,
        size,
        protection,
        guarded: false,
        shared: false,
        reserved: false,
    }
}

#[test]
fn view_check_size() {
    // One merged region of three readable pages.
    let pages = vec![region(0x1000, 3 * PZ, Protection::READ)];

    // Only the middle page is in the view.
    let view = PageView::new(pages.clone(), 0x2000, PZ, PZ).unwrap();
    assert_eq!(view.as_ptr(), 0x2000);
    assert_eq!(view.len(), PZ);

    // Two pages are in the view when the range straddles a page boundary.
    let view = PageView::new(pages, 0x2000 - 1, 2, PZ).unwrap();
    assert_eq!(view.as_ptr(), 0x1000);
    assert_eq!(view.len(), 2 * PZ);
}

#[test]
fn view_rejects_zero_size_and_empty_windows() {
    let pages = vec![region(0x1000, PZ, Protection::READ)];
    assert!(matches!(
        PageView::new(pages, 0x1000, 0, PZ),
        Err(Error::InvalidParameter("size"))
    ));
    assert!(matches!(
        PageView::new(Vec::new(), 0x1000, PZ, PZ),
        Err(Error::UnmappedRegion)
    ));
}

#[test]
fn view_get_prot() {
    let pages = vec![
        region(0x1000, PZ, Protection::READ),
        region(0x2000, PZ, Protection::READ_WRITE),
    ];
    let mut view = PageView::new(pages, 0x1000, PZ * 2, PZ).unwrap();
    assert_eq!(view.len(), PZ * 2);
    assert_eq!(view.get_prot(), None);

    // Record that both regions were set to READ.
    view.commit(0, Access::Type(Protection::READ));
    view.commit(1, Access::Type(Protection::READ));
    assert_eq!(view.get_prot(), Some(Protection::READ));
}

#[test]
fn view_prot_prev() {
    let pages = vec![region(0x1000, PZ, Protection::READ)];
    let mut view = PageView::new(pages, 0x1000, PZ, PZ).unwrap();

    view.commit(0, Access::Type(Protection::READ_WRITE));
    assert_eq!(view.get_prot(), Some(Protection::READ_WRITE));
    assert_eq!(view.target(0, Access::Previous), Protection::READ);

    view.commit(0, Access::Previous);
    assert_eq!(view.get_prot(), Some(Protection::READ));
    // A second restore swaps back again.
    assert_eq!(view.target(0, Access::Previous), Protection::READ_WRITE);
}

#[test]
fn view_prot_initial() {
    let pages = vec![region(0x1000, PZ, Protection::READ)];
    let mut view = PageView::new(pages, 0x1000, PZ, PZ).unwrap();

    view.commit(0, Access::Type(Protection::READ_WRITE));
    view.commit(0, Access::Type(Protection::READ_WRITE_EXECUTE));
    assert_eq!(view.target(0, Access::Initial), Protection::READ);

    view.commit(0, Access::Initial);
    assert_eq!(view.get_prot(), Some(Protection::READ));
}

#[test]
fn view_bounds_are_trimmed_to_the_window() {
    let pages = vec![
        region(0x1000, 2 * PZ, Protection::READ),
        region(0x3000, 2 * PZ, Protection::READ_WRITE),
    ];
    let view = PageView::new(pages, 0x2000, 2 * PZ, PZ).unwrap();
    assert_eq!(view.lower(), 0x2000);
    assert_eq!(view.upper(), 0x4000);
    assert_eq!(view.len(), 2 * PZ);
    assert!(!view.is_empty());
}
