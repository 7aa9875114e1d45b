use edged_core::grab::{mode_for, Corner, Mode};
use edged_core::settings::{ResizeCorner, Settings};
use edged_core::shortcut::Modifiers;

#[test]
fn the_chords_set_pick_the_mode_and_the_move_chord_wins_a_tie() {
    let settings = Settings::for_test();
    let move_modifiers = Modifiers {
        control: true,
        shift: true,
        ..Modifiers::default()
    };
    let resize_modifiers = Modifiers {
        option: true,
        shift: true,
        ..Modifiers::default()
    };

    assert_eq!(mode_for(move_modifiers, &settings), Some(Mode::Move));
    assert_eq!(mode_for(resize_modifiers, &settings), Some(Mode::Resize));
    assert_eq!(
        mode_for(
            Modifiers {
                option: true,
                ..move_modifiers
            },
            &settings
        ),
        None
    );
    assert_eq!(mode_for(Modifiers::default(), &settings), None);

    let same = Settings {
        resize_chord: settings.move_chord,
        ..settings
    };
    assert_eq!(mode_for(move_modifiers, &same), Some(Mode::Move));
}

#[test]
fn the_ring_switched_off_leaves_its_chord_unanswered() {
    let settings = Settings {
        ring_enabled: false,
        ..Settings::for_test()
    };
    let arrange = Modifiers {
        control: true,
        command: true,
        ..Modifiers::default()
    };
    assert_eq!(mode_for(arrange, &settings), None);
    assert_eq!(
        mode_for(arrange, &Settings::for_test()),
        Some(Mode::Arrange)
    );
}

/// The nearest corner is measured on the window's frame in floating point, which the
/// caller does; here it is the top-left corner the pointer at (120, 220) is nearest on
/// the frame at (100, 200) sized 400 by 300.
#[test]
fn the_corner_setting_picks_a_fixed_corner_or_the_nearest() {
    let top_left = Corner {
        left: true,
        top: true,
    };
    assert_eq!(
        Corner::for_setting(ResizeCorner::BottomRight, top_left),
        Corner::bottom_right()
    );
    let nearest = Corner::for_setting(ResizeCorner::Nearest, top_left);
    assert!(nearest.left && nearest.top);
}
