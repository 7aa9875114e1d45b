use edged_core::desktop::Window;
use edged_core::grab::{can_hold, keeps_on_screen, keys_changed, KeysAction, Mode};
use edged_core::settings::Settings;
use edged_core::shortcut::{command_in, Modifiers, COMMAND_FLAG, OPTION_FLAG, SHIFT_FLAG};

fn held(control: bool, shift: bool) -> Modifiers {
    Modifiers {
        control,
        shift,
        ..Modifiers::default()
    }
}

#[test]
fn the_keys_take_hold_switch_and_let_go() {
    let settings = Settings::for_test();
    assert_eq!(keys_changed(None, held(true, true), &settings), KeysAction::TakeHold(Mode::Move));
    assert_eq!(keys_changed(Some(Mode::Move), held(true, true), &settings), KeysAction::Nothing);
    let resize = Modifiers {
        option: true,
        shift: true,
        ..Modifiers::default()
    };
    assert_eq!(keys_changed(Some(Mode::Move), resize, &settings), KeysAction::Switch(Mode::Resize));
    assert_eq!(keys_changed(Some(Mode::Resize), Modifiers::default(), &settings), KeysAction::LetGo);
    assert_eq!(keys_changed(None, Modifiers::default(), &settings), KeysAction::Nothing);
    let off = Settings {
        move_enabled: false,
        ..Settings::for_test()
    };
    assert_eq!(keys_changed(None, held(true, true), &off), KeysAction::Nothing);
    assert_eq!(keys_changed(None, resize, &off), KeysAction::TakeHold(Mode::Resize));
}

#[test]
fn modifier_flags_read_as_keys() {
    let keys = Modifiers::of(OPTION_FLAG | SHIFT_FLAG | 0x100);
    assert_eq!(
        keys,
        Modifiers {
            option: true,
            shift: true,
            command: false,
            control: false,
        }
    );
    assert!(command_in(COMMAND_FLAG | 1));
    assert!(!command_in(OPTION_FLAG));
}

#[test]
fn a_full_screen_or_minimized_window_is_not_held() {
    let mut window = Window {
        id: 1,
        pid: 7,
        title: String::new(),
        is_minimized: false,
        is_fullscreen: false,
        spaces: Vec::new(),
    };
    assert!(can_hold(&window));
    window.is_minimized = true;
    assert!(!can_hold(&window));
    window.is_minimized = false;
    window.is_fullscreen = true;
    assert!(!can_hold(&window));
}

#[test]
fn the_ring_answers_its_chord_with_move_and_resize_switched_off() {
    let settings = Settings {
        move_enabled: false,
        resize_enabled: false,
        ..Settings::for_test()
    };
    let arrange = Modifiers {
        control: true,
        command: true,
        ..Modifiers::default()
    };
    assert_eq!(keys_changed(None, arrange, &settings), KeysAction::TakeHold(Mode::Arrange));
    let no_ring = Settings {
        ring_enabled: false,
        ..Settings::for_test()
    };
    assert_eq!(keys_changed(None, arrange, &no_ring), KeysAction::Nothing);
}

#[test]
fn each_interaction_keeps_to_the_screen_by_its_own_setting() {
    let settings = Settings {
        resize_stays_on_screen: false,
        ..Settings::for_test()
    };
    assert!(keeps_on_screen(&settings, Mode::Move));
    assert!(!keeps_on_screen(&settings, Mode::Resize));
    assert!(!keeps_on_screen(&settings, Mode::Arrange));
}
