use std::collections::HashSet;

use edged_core::desktop::{AppEntry, Application, Desktop, Window};
use edged_core::space::Change;
use edged_core::upkeep::{gather, list_wanted, needs_list, walk_wanted, WalkOutcome};

fn set(ids: &[u32]) -> HashSet<u32> {
    ids.iter().copied().collect()
}

fn window(id: u32, pid: i32, title: &str) -> Window {
    Window {
        id,
        pid,
        title: title.to_owned(),
        is_minimized: false,
        is_fullscreen: false,
        spaces: vec![1],
    }
}

fn application(pid: i32, name: &str, hidden: bool) -> Application {
    Application {
        pid,
        bundle_id: None,
        bundle_path: Some(format!("/Applications/{name}.app")),
        name: name.to_owned(),
        is_active: false,
        is_hidden: hidden,
    }
}

fn entry(pid: i32, name: &str, windows: Vec<Window>) -> AppEntry {
    AppEntry {
        application: application(pid, name, false),
        windows,
        focused: None,
        badge: None,
    }
}

fn desktop(applications: Vec<AppEntry>) -> Desktop {
    Desktop {
        spaces: Vec::new(),
        applications,
        showing: Vec::new(),
    }
}

fn ids(windows: &[Window]) -> Vec<u32> {
    windows.iter().map(|window| window.id).collect()
}

#[test]
fn a_fresh_list_keeps_what_the_window_server_holds_and_the_windows_on_other_spaces() {
    let mut desktop = desktop(vec![entry(7, "Notes", vec![window(1, 7, "a"), window(2, 7, "b")])]);
    let listed = vec![window(3, 7, "c"), window(9, 7, "ordered out")];
    let missing = desktop.list_windows(7, &vec![1, 3, 4], listed, Some(3));
    assert_eq!(ids(&desktop.applications[0].windows), vec![3, 1]);
    assert_eq!(desktop.applications[0].focused, None);
    assert_eq!(missing, Some(vec![4]));
    desktop.applications[0].application.is_active = true;
    let _ = desktop.list_windows(7, &vec![1, 3, 4], Vec::new(), Some(3));
    assert_eq!(desktop.applications[0].focused, Some(3));
    assert_eq!(desktop.list_windows(8, &vec![1], Vec::new(), None), None);
}

#[test]
fn a_hidden_application_is_taken_at_its_word() {
    let mut hidden = entry(7, "Notes", Vec::new());
    hidden.application.is_hidden = true;
    let mut desktop = desktop(vec![hidden]);
    let _ = desktop.list_windows(7, &Vec::new(), vec![window(5, 7, "e")], None);
    assert_eq!(ids(&desktop.applications[0].windows), vec![5]);
}

#[test]
fn a_walk_adds_only_new_windows_the_server_holds() {
    let mut desktop = desktop(vec![entry(7, "Notes", vec![window(1, 7, "a")])]);
    let found = vec![window(1, 7, "a"), window(2, 7, "b"), window(6, 7, "not held")];
    let (changed, outcome) = desktop.walked(7, &vec![1, 2, 3], found, false);
    assert!(changed);
    assert!(matches!(outcome, WalkOutcome::Resume));
    assert_eq!(ids(&desktop.applications[0].windows), vec![1, 2]);
    let (changed, outcome) = desktop.walked(7, &vec![1, 2, 3], Vec::new(), true);
    assert!(!changed);
    match outcome {
        WalkOutcome::Unresolved(missing) => assert_eq!(missing, set(&[3])),
        _ => panic!("the walk ended with a window missing"),
    }
    let (_, outcome) = desktop.walked(7, &vec![1, 2], Vec::new(), false);
    assert!(matches!(outcome, WalkOutcome::Settled));
}

#[test]
fn a_destroyed_window_is_dropped_and_a_refreshed_one_replaced() {
    let mut desktop = desktop(vec![entry(7, "Notes", vec![window(1, 7, "a"), window(2, 7, "b")])]);
    desktop.refresh_window(7, 2, Some(window(2, 7, "renamed")));
    assert_eq!(desktop.applications[0].windows[1].title, "renamed");
    desktop.refresh_window(7, 1, None);
    assert_eq!(ids(&desktop.applications[0].windows), vec![2]);
    desktop.remove_window(7, 2);
    assert!(desktop.applications[0].windows.is_empty());
}

#[test]
fn applications_that_stay_keep_their_windows_and_new_ones_arrive_empty() {
    let mut desktop = desktop(vec![
        entry(7, "Notes", vec![window(1, 7, "a")]),
        entry(8, "Mail", vec![window(2, 8, "b")]),
    ]);
    let badges = vec![("/Applications/Safari.app".to_owned(), "3".to_owned())];
    let arrived = desktop.sync_applications(
        vec![
            (application(9, "Safari", false), None),
            (application(7, "Notes", true), Some(1)),
            (
                Application {
                    is_active: true,
                    ..application(10, "Mail", false)
                },
                Some(4),
            ),
        ],
        &badges,
    );
    assert_eq!(arrived, vec![9, 10]);
    assert_eq!(desktop.applications.len(), 3);
    assert_eq!(desktop.applications[2].focused, Some(4));
    assert_eq!(desktop.applications[0].application.pid, 9);
    assert!(desktop.applications[0].windows.is_empty());
    assert_eq!(desktop.applications[0].badge.as_deref(), Some("3"));
    assert_eq!(ids(&desktop.applications[1].windows), vec![1]);
    assert!(desktop.applications[1].application.is_hidden);
    assert_eq!(desktop.applications[1].focused, None);
}

#[test]
fn badges_and_activity_are_taken_into_every_entry() {
    let mut desktop = desktop(vec![entry(7, "Notes", Vec::new()), entry(8, "Mail", Vec::new())]);
    let badges = vec![("/Applications/Mail.app".to_owned(), "12".to_owned())];
    assert!(desktop.refresh_badges(&badges));
    assert_eq!(desktop.applications[1].badge.as_deref(), Some("12"));
    assert_eq!(desktop.applications[0].badge, None);
    assert!(!desktop.refresh_badges(&badges));
    desktop.refresh_active(&vec![(8, true), (7, false), (8, false)]);
    assert!(!desktop.applications[1].application.is_active);
    desktop.refresh_active(&vec![(7, true)]);
    assert!(desktop.applications[0].application.is_active);
}

#[test]
fn a_walk_is_started_only_when_it_can_find_something() {
    assert!(walk_wanted(true, false, &vec![4], None));
    assert!(!walk_wanted(false, false, &vec![4], None));
    assert!(!walk_wanted(true, true, &vec![4], None));
    assert!(!walk_wanted(true, false, &Vec::new(), None));
    assert!(!walk_wanted(true, false, &vec![4], Some(&set(&[4, 5]))));
    assert!(walk_wanted(true, false, &vec![4, 6], Some(&set(&[4, 5]))));
}

#[test]
fn the_server_list_says_which_applications_to_read_again() {
    let held = entry(7, "Notes", vec![window(1, 7, "a")]);
    assert!(!list_wanted(&held, &vec![1], false, None));
    assert!(list_wanted(&held, &vec![1, 2], false, None));
    assert!(!list_wanted(&held, &vec![1, 2], true, None));
    assert!(!list_wanted(&held, &vec![1, 2], false, Some(&set(&[2]))));
    assert!(list_wanted(&held, &Vec::new(), false, None));
}

#[test]
fn changes_are_gathered_once_each() {
    let mut changes = Vec::new();
    gather(&mut changes, Change::Window(7, 1));
    gather(&mut changes, Change::Window(7, 1));
    gather(&mut changes, Change::Spaces);
    assert_eq!(changes, vec![Change::Window(7, 1), Change::Spaces]);
    assert!(!needs_list(&changes));
    gather(&mut changes, Change::Windows(7));
    assert!(needs_list(&changes));
}

#[test]
fn the_focused_window_is_taken_into_its_entry() {
    let mut desktop = desktop(vec![entry(7, "Notes", vec![window(1, 7, "a")])]);
    desktop.set_focused(7, Some(1));
    assert_eq!(desktop.applications[0].focused, None);
    desktop.applications[0].application.is_active = true;
    desktop.set_focused(7, Some(1));
    assert_eq!(desktop.applications[0].focused, Some(1));
    desktop.set_focused(8, Some(9));
    assert_eq!(desktop.applications.len(), 1);
    assert_eq!(ids(&desktop.applications[0].windows), vec![1]);
}
