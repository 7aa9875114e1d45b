use std::cmp::Ordering;

use edged_core::desktop::{title_order, window_order};

#[test]
fn windows_order_by_application_before_title() {
    assert_eq!(
        window_order(("Safari", "Apple", 1), ("Finder", "Zebra", 2)),
        Ordering::Greater
    );
    assert_eq!(
        window_order(("finder", "b", 1), ("Finder", "a", 2)),
        Ordering::Greater
    );
}

#[test]
fn windows_order_by_title_whatever_their_case_and_by_id_when_titled_alike() {
    assert_eq!(title_order(("alpha", 2), ("Beta", 1)), Ordering::Less);
    assert_eq!(title_order(("Beta", 1), ("alpha", 2)), Ordering::Greater);
    assert_eq!(title_order(("Same", 5), ("same", 3)), Ordering::Greater);
    assert_eq!(title_order(("Same", 3), ("same", 3)), Ordering::Equal);
}
