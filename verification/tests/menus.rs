use edged_core::desktop::{Application, Desktop, Window};
use edged_core::menus::{application_menu, chosen, edged_menu, window_menu, Choice, MenuEntry};
use edged_core::space::{Space, SpaceKind};

fn space(id: u64, display: &str, index: Option<usize>, kind: SpaceKind) -> Space {
    Space {
        id,
        display_uuid: display.to_owned(),
        index,
        kind,
    }
}

fn window(spaces: Vec<u64>, minimized: bool, fullscreen: bool) -> Window {
    Window {
        id: 40,
        pid: 7,
        title: "Draft".to_owned(),
        is_minimized: minimized,
        is_fullscreen: fullscreen,
        spaces,
    }
}

fn notes() -> Application {
    Application {
        pid: 7,
        bundle_id: None,
        bundle_path: None,
        name: "Notes".to_owned(),
        is_active: true,
        is_hidden: false,
    }
}

fn titles(entries: &[MenuEntry]) -> Vec<String> {
    entries
        .iter()
        .map(|entry| match entry {
            MenuEntry::Item(title, _) => title.clone(),
            MenuEntry::Checked(title, checked, _) => format!("{title} [{checked}]"),
            MenuEntry::Separator => "-".to_owned(),
        })
        .collect()
}

fn two_displays() -> Desktop {
    Desktop {
        spaces: vec![
            space(1, "main", Some(0), SpaceKind::Desktop),
            space(2, "main", Some(1), SpaceKind::Desktop),
            space(3, "main", None, SpaceKind::Fullscreen),
            space(4, "side", Some(2), SpaceKind::Desktop),
        ],
        applications: Vec::new(),
        showing: Vec::new(),
    }
}

#[test]
fn a_window_is_offered_the_other_desktops_of_its_display() {
    let menu = window_menu(&two_displays(), &window(vec![1], false, false), &notes(), Some("main"));
    assert_eq!(
        titles(&menu),
        vec!["Close", "Minimize", "-", "Quit Notes", "-", "Move to Desktop 2"]
    );
    assert_eq!(chosen(&menu, 5), Some(Choice::MoveTo(2)));
    assert_eq!(chosen(&menu, 2), None);
    assert_eq!(chosen(&menu, 9), None);
}

#[test]
fn a_full_screen_or_minimized_window_is_offered_its_own_way_back() {
    let menu = window_menu(&two_displays(), &window(vec![3], false, true), &notes(), Some("main"));
    assert_eq!(titles(&menu), vec!["Close", "Leave Full Screen", "-", "Quit Notes"]);
    let menu = window_menu(&two_displays(), &window(vec![1], true, false), &notes(), None);
    assert_eq!(titles(&menu), vec!["Close", "Restore", "-", "Quit Notes"]);
}

#[test]
fn a_windowless_application_can_only_be_quit() {
    let menu = application_menu(&notes());
    assert_eq!(titles(&menu), vec!["Quit Notes"]);
    assert_eq!(chosen(&menu, 0), Some(Choice::Quit));
}

#[test]
fn the_edged_menu_offers_previews_until_screen_recording_is_granted() {
    let menu = edged_menu(false, false);
    assert_eq!(
        titles(&menu),
        vec![
            "Launch at Login [false]",
            "Refresh",
            "-",
            "Show Window Previews…",
            "-",
            "Settings…",
            "-",
            "Quit Edged"
        ]
    );
    assert_eq!(chosen(&menu, 0), Some(Choice::LaunchAtLogin(true)));
    let granted = edged_menu(true, true);
    assert_eq!(
        titles(&granted),
        vec!["Launch at Login [true]", "Refresh", "-", "Settings…", "-", "Quit Edged"]
    );
    assert_eq!(chosen(&granted, 0), Some(Choice::LaunchAtLogin(false)));
}
