use edged_core::space::{
    change_for, space_with_id, spaces_of_display, switch_action, Change, Space, SpaceKind,
    SwitchAction,
};

fn desktop(id: u64, index: Option<usize>) -> Space {
    Space {
        id,
        display_uuid: "main".to_owned(),
        index,
        kind: SpaceKind::Desktop,
    }
}

#[test]
fn desktops_are_numbered_across_displays() {
    let (spaces, count) = spaces_of_display(&"side".to_owned(), &vec![(10, Some(0)), (11, Some(4)), (12, None), (13, Some(0))], 2);
    assert_eq!(count, 4);
    let numbers: Vec<(u64, Option<usize>, SpaceKind)> =
        spaces.iter().map(|space| (space.id, space.index, space.kind)).collect();
    assert_eq!(
        numbers,
        vec![
            (10, Some(2), SpaceKind::Desktop),
            (11, None, SpaceKind::Fullscreen),
            (12, None, SpaceKind::Fullscreen),
            (13, Some(3), SpaceKind::Desktop),
        ]
    );
    assert!(spaces.iter().all(|space| space.display_uuid == "side"));
}

#[test]
fn only_the_first_sixteen_desktops_have_a_shortcut() {
    assert_eq!(desktop(1, Some(0)).hotkey(), Some(118));
    assert_eq!(desktop(1, Some(15)).hotkey(), Some(133));
    assert_eq!(desktop(1, Some(16)).hotkey(), None);
    let full = Space {
        kind: SpaceKind::Fullscreen,
        ..desktop(1, None)
    };
    assert_eq!(full.hotkey(), None);
    assert_eq!(desktop(1, Some(2)).enable_shortcut(true), Some(120));
    assert_eq!(desktop(1, Some(2)).enable_shortcut(false), None);
    assert_eq!(desktop(1, Some(2)).press_shortcut(Some((20, 0x40000))), Some((20, 0x40000)));
    assert_eq!(full.press_shortcut(Some((20, 0x40000))), None);
    assert!(desktop(5, Some(0)).is_current(5));
    assert!(!desktop(5, Some(0)).is_current(6));
}

#[test]
fn notifications_are_told_apart() {
    assert_eq!(change_for(7, "AXFocusedWindowChanged", None), Change::Focus(7));
    assert_eq!(change_for(7, "AXApplicationHidden", Some(3)), Change::Applications);
    assert_eq!(change_for(7, "AXWindowMoved", Some(3)), Change::Window(7, 3));
    assert_eq!(change_for(7, "AXTitleChanged", None), Change::Windows(7));
    assert_eq!(change_for(7, "AXWindowCreated", Some(3)), Change::Windows(7));
}

#[test]
fn a_heading_switches_only_to_a_space_a_shortcut_reaches() {
    let spaces = vec![desktop(1, Some(0)), desktop(2, Some(1)), desktop(3, Some(20))];
    assert_eq!(switch_action(space_with_id(&spaces, 9), 1, true), SwitchAction::Gone);
    assert_eq!(switch_action(space_with_id(&spaces, 1), 1, true), SwitchAction::Shown);
    assert_eq!(switch_action(space_with_id(&spaces, 2), 1, true), SwitchAction::Press(119));
    assert_eq!(switch_action(space_with_id(&spaces, 2), 1, false), SwitchAction::Unreachable);
    assert_eq!(switch_action(space_with_id(&spaces, 3), 1, true), SwitchAction::Unreachable);
}
