use edged_core::desktop::{AppEntry, Application, Desktop, Window};
use edged_core::space::{Space, SpaceKind};

fn window(id: u32, pid: i32, title: &str, spaces: Vec<u64>) -> Window {
    Window {
        id,
        pid,
        title: title.to_owned(),
        is_minimized: false,
        is_fullscreen: false,
        spaces,
    }
}

fn entry(pid: i32, name: &str, windows: Vec<Window>) -> AppEntry {
    AppEntry {
        application: Application {
            pid,
            bundle_id: None,
            bundle_path: None,
            name: name.to_owned(),
            is_active: false,
            is_hidden: false,
        },
        windows,
        focused: None,
        badge: None,
    }
}

fn space(id: u64, display: &str, index: Option<usize>, kind: SpaceKind) -> Space {
    Space {
        id,
        display_uuid: display.to_owned(),
        index,
        kind,
    }
}

fn desktop() -> Desktop {
    Desktop {
        spaces: vec![
            space(1, "main", Some(0), SpaceKind::Desktop),
            space(2, "side", Some(1), SpaceKind::Desktop),
            space(3, "main", None, SpaceKind::Fullscreen),
        ],
        applications: vec![
            entry(7, "safari", vec![window(10, 7, "Zebra", vec![1]), window(11, 7, "apple", vec![1, 2])]),
            entry(8, "Zoom", Vec::new()),
            entry(9, "Finder", vec![window(12, 9, "Home", vec![1])]),
            entry(6, "Activity Monitor", Vec::new()),
        ],
        showing: vec![("main".to_owned(), 3), ("side".to_owned(), 2)],
    }
}

#[test]
fn a_space_lists_its_windows_by_application_then_title() {
    let desktop = desktop();
    let listed: Vec<u32> = desktop.windows_on(1).iter().map(|(_, window)| window.id).collect();
    assert_eq!(listed, vec![12, 11, 10]);
    let pinned: Vec<u32> = desktop.windows_on(2).iter().map(|(_, window)| window.id).collect();
    assert_eq!(pinned, vec![11]);
    assert!(desktop.windows_on(3).is_empty());
}

#[test]
fn windowless_applications_come_alphabetically() {
    let desktop = desktop();
    let names: Vec<&str> = desktop
        .windowless()
        .iter()
        .map(|entry| entry.application.name.as_str())
        .collect();
    assert_eq!(names, vec!["Activity Monitor", "Zoom"]);
}

#[test]
fn each_display_shows_one_space() {
    let desktop = desktop();
    let main: Vec<u64> = desktop.spaces_of("main").iter().map(|space| space.id).collect();
    assert_eq!(main, vec![1, 3]);
    let desktops: Vec<u64> = desktop.desktops_of("main").iter().map(|space| space.id).collect();
    assert_eq!(desktops, vec![1]);
    assert_eq!(desktop.shown_space("side"), Some(2));
    assert!(desktop.is_showing(&desktop.spaces[1]));
    assert!(!desktop.is_showing(&desktop.spaces[0]));
    assert!(desktop.is_full_screen("main"));
    assert!(!desktop.is_full_screen("side"));
    assert_eq!(desktop.showing_on("side").map(|space| space.id), Some(2));
    assert_eq!(desktop.window(11).map(|window| window.title.as_str()), Some("apple"));
    assert!(desktop.window(99).is_none());
}

#[test]
fn the_processes_icons_and_displays_listed() {
    let desktop = desktop();
    assert_eq!(desktop.pids(), vec![7, 8, 9, 6]);
    assert_eq!(desktop.icon_keys(), vec!["7", "8", "9", "6"]);
    assert_eq!(desktop.display_uuids(), vec!["main", "side"]);
}
