use edged_core::desktop::{AppEntry, Application, Window};
use edged_core::permissions::{Granted, Permission, Permissions};
use edged_core::rows::{application_row, space_mark, window_row};
use edged_core::space::{Space, SpaceKind};

fn entry(active: bool, hidden: bool, focused: Option<u32>) -> AppEntry {
    AppEntry {
        application: Application {
            pid: 7,
            bundle_id: None,
            bundle_path: None,
            name: "Notes".to_owned(),
            is_active: active,
            is_hidden: hidden,
        },
        windows: Vec::new(),
        focused,
        badge: None,
    }
}

fn window(id: u32, title: &str, minimized: bool) -> Window {
    Window {
        id,
        pid: 7,
        title: title.to_owned(),
        is_minimized: minimized,
        is_fullscreen: false,
        spaces: Vec::new(),
    }
}

#[test]
fn the_window_in_plain_sight_needs_no_preview() {
    let front = window_row(&entry(true, false, Some(1)), &window(1, "Draft", false), true);
    assert_eq!(front.label, "Draft");
    assert!(front.focused && !front.dimmed && !front.previews);
    let elsewhere = window_row(&entry(true, false, Some(1)), &window(1, "Draft", false), false);
    assert!(elsewhere.previews);
    let untitled = window_row(&entry(false, false, Some(1)), &window(2, "", true), true);
    assert_eq!(untitled.label, "Notes");
    assert!(!untitled.focused && untitled.dimmed && untitled.previews);
    let app = application_row(&entry(false, true, None));
    assert_eq!(app.label, "Notes");
    assert!(app.dimmed && !app.previews);
}

#[test]
fn a_space_is_marked_by_its_number_or_as_full_screen() {
    let space = |index, kind| Space {
        id: 1,
        display_uuid: String::new(),
        index,
        kind,
    };
    assert_eq!(space_mark(&space(Some(0), SpaceKind::Desktop)), "1");
    assert_eq!(space_mark(&space(Some(11), SpaceKind::Desktop)), "12");
    assert_eq!(space_mark(&space(None, SpaceKind::Fullscreen)), "F");
    assert_eq!(space_mark(&space(None, SpaceKind::Desktop)), "·");
}

#[test]
fn a_grant_is_announced_once() {
    let mut permissions = Permissions::start(false, false);
    assert!(permissions.polls());
    let first = permissions.refresh(true, false);
    assert_eq!(first.changes, vec![Permission::Accessibility]);
    assert_eq!(first.granted, vec![Granted(Permission::Accessibility)]);
    let again = permissions.refresh(true, false);
    assert!(again.changes.is_empty());
    let both = permissions.refresh(false, true);
    assert_eq!(both.changes, vec![Permission::Accessibility, Permission::ScreenRecording]);
    assert_eq!(both.granted, vec![Granted(Permission::ScreenRecording)]);
    assert!(again.granted.is_empty());
    assert!(permissions.polls());
    assert!(!permissions.has(Permission::Accessibility));
    assert!(permissions.has(Permission::ScreenRecording));
}
