use edged_core::dock::{badge_count, badge_of, badges, dock_pid, icon_key, DockTile};

fn tile(path: &str, running: Option<bool>, label: Option<&str>) -> DockTile {
    DockTile {
        is_application_item: true,
        is_running: running,
        url_path: Some(path.to_owned()),
        status_label: label.map(str::to_owned),
    }
}

#[test]
fn only_running_applications_with_a_label_have_a_badge() {
    let found = badges(&vec![
        tile("/Applications/Mail.app/", Some(true), Some("3")),
        tile("/Applications/Notes.app/", Some(false), Some("1")),
        tile("/Applications/Music.app/", Some(true), None),
        tile("/Applications/Safari.app", None, Some("2")),
    ]);
    assert_eq!(found, vec![("/Applications/Mail.app".to_owned(), "3".to_owned())]);
}

#[test]
fn a_badge_is_found_by_bundle_path_the_last_one_winning() {
    let found = vec![
        ("/Applications/Mail.app".to_owned(), "3".to_owned()),
        ("/Applications/Mail.app".to_owned(), "4".to_owned()),
    ];
    assert_eq!(badge_of(&Some("/Applications/Mail.app//".to_owned()), &found).as_deref(), Some("4"));
    assert_eq!(badge_of(&Some("/Applications/Notes.app".to_owned()), &found), None);
    assert_eq!(badge_of(&None, &found), None);
}

#[test]
fn an_icon_is_keyed_by_its_bundle_or_its_process() {
    assert_eq!(icon_key(&Some("/Applications/Mail.app".to_owned()), 7), "/Applications/Mail.app");
    assert_eq!(icon_key(&None, -42), "-42");
}

#[test]
fn a_badge_count_is_trimmed_and_capped() {
    assert_eq!(badge_count(" 12 ").as_deref(), Some("12"));
    assert_eq!(badge_count("99").as_deref(), Some("99"));
    assert_eq!(badge_count("100").as_deref(), Some("99+"));
    assert_eq!(badge_count("").as_deref(), None);
}

#[test]
fn the_dock_is_found_by_its_bundle() {
    let running = vec![
        (None, 1),
        (Some("com.apple.finder".to_owned()), 2),
        (Some("com.apple.dock".to_owned()), 3),
        (Some("com.apple.dock".to_owned()), 4),
    ];
    assert_eq!(dock_pid(&running), Some(3));
    assert_eq!(dock_pid(&running[..2].to_vec()), None);
}
