use edged_core::desktop::Window;
use edged_core::listing::{by_process, distinct_windows, expected_for, is_window_role, server_window};

fn window(id: u32, title: &str) -> Window {
    Window {
        id,
        pid: 7,
        title: title.to_owned(),
        is_minimized: false,
        is_fullscreen: false,
        spaces: Vec::new(),
    }
}

#[test]
fn only_normal_windows_of_a_usable_size_are_held() {
    let some = Some;
    assert_eq!(server_window(some(0), some(7), some(40), some(800), some(600)), Some((7, 40)));
    assert_eq!(server_window(some(3), some(7), some(40), some(800), some(600)), None);
    assert_eq!(server_window(some(0), None, some(40), some(800), some(600)), None);
    assert_eq!(server_window(some(0), some(7), some(40), some(99), some(600)), None);
    assert_eq!(server_window(some(0), some(7), some(40), some(100), some(49)), None);
    assert_eq!(server_window(some(0), some(7), some(40), None, some(600)), None);
    assert_eq!(server_window(some(0), some(7), some(40), some(100), some(50)), Some((7, 40)));
}

#[test]
fn windows_are_grouped_by_their_process_each_once() {
    let groups = by_process(&vec![(7, 1), (8, 2), (7, 3), (7, 1)]);
    assert_eq!(groups.len(), 2);
    let mut notes = expected_for(&groups, 7);
    notes.sort();
    assert_eq!(notes, vec![1, 3]);
    assert_eq!(expected_for(&groups, 8), vec![2]);
    assert!(expected_for(&groups, 9).is_empty());
}

#[test]
fn a_window_role_with_an_ordinary_subrole_or_none_is_a_window() {
    assert!(is_window_role(Some("AXWindow"), Some("AXStandardWindow")));
    assert!(is_window_role(Some("AXWindow"), Some("AXDialog")));
    assert!(is_window_role(Some("AXWindow"), None));
    assert!(!is_window_role(Some("AXWindow"), Some("AXFloatingWindow")));
    assert!(!is_window_role(Some("AXSheet"), None));
    assert!(!is_window_role(None, None));
}

#[test]
fn a_window_listed_twice_is_kept_once() {
    let kept = distinct_windows(vec![window(1, "a"), window(2, "b"), window(1, "again")]);
    let seen: Vec<(u32, String)> = kept.iter().map(|w| (w.id, w.title.clone())).collect();
    assert_eq!(seen, vec![(1, "a".to_owned()), (2, "b".to_owned())]);
}
