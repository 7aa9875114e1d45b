use edged_core::screen::Side;
use edged_core::settings::{
    default_move_chord, ring_zone_key, PanelReveal, PreviewTrigger, ResizeCorner, Settings,
    StoredSettings, MOVE_CHORD_KEY,
};
use edged_core::shortcut::{Chord, Key};
use edged_core::zone::{Direction, Zone};

fn nothing_stored() -> StoredSettings {
    StoredSettings {
        panel_side: None,
        panel_reveal: None,
        preview_trigger: None,
        move_enabled: None,
        resize_enabled: None,
        move_chord: None,
        resize_chord: None,
        resize_corner: None,
        ring: None,
        arrange_chord: None,
        move_stays_on_screen: None,
        resize_stays_on_screen: None,
        ring_zones: Default::default(),
    }
}

#[test]
fn settings_read_from_nothing_are_the_defaults() {
    let settings = Settings::read(&nothing_stored(), false);
    assert_eq!(settings.panel_side, Side::Right);
    assert_eq!(settings.panel_reveal, PanelReveal::Unfold);
    assert_eq!(settings.preview_trigger, PreviewTrigger::CommandKey);
    assert!(settings.move_enabled && settings.resize_enabled && settings.ring_enabled);
    assert!(settings.move_stays_on_screen && settings.resize_stays_on_screen);
    assert_eq!(settings.move_chord, Chord::none().with(Key::Control).with(Key::Shift));
    assert_eq!(settings.resize_chord, Chord::none().with(Key::Option).with(Key::Shift));
    assert_eq!(settings.arrange_chord, Chord::none().with(Key::Control).with(Key::Command));
    assert_eq!(settings.resize_corner, ResizeCorner::BottomRight);
    assert_eq!(settings.ring_zones, Direction::default_zones());
}

#[test]
fn what_is_stored_is_read_and_what_does_not_read_falls_back() {
    let mut stored = nothing_stored();
    stored.panel_side = Some("left".to_owned());
    stored.move_enabled = Some("off".to_owned());
    stored.resize_stays_on_screen = Some("off".to_owned());
    stored.move_chord = Some("command".to_owned());
    stored.resize_chord = Some("hyper".to_owned());
    stored.ring_zones[Direction::Up.index()] = Some("none".to_owned());
    stored.ring_zones[Direction::Left.index()] = Some("nowhere".to_owned());
    let settings = Settings::read(&stored, true);
    assert!(settings.launches_at_login);
    assert_eq!(settings.panel_side, Side::Left);
    assert!(!settings.move_enabled);
    assert!(settings.resize_enabled);
    assert!(settings.move_stays_on_screen);
    assert!(!settings.resize_stays_on_screen);
    assert_eq!(settings.move_chord, Chord::none().with(Key::Command));
    assert_eq!(settings.resize_chord, Chord::none().with(Key::Option).with(Key::Shift));
    assert_eq!(settings.ring_zones[Direction::Up.index()], None);
    assert_eq!(
        settings.ring_zones[Direction::Left.index()],
        Zone::default_for(Direction::Left)
    );
}

#[test]
fn a_change_is_written_once_and_reads_back() {
    let mut settings = Settings::for_test();
    let chord = Chord::none().with(Key::Command).with(Key::Option);
    let write = settings.set_move_chord(chord).expect("a new chord is written");
    assert_eq!(write.key, MOVE_CHORD_KEY);
    assert_eq!(write.value, "option+command");
    assert!(settings.set_move_chord(chord).is_none());
    assert_ne!(settings.move_chord, default_move_chord());

    let mut stored = nothing_stored();
    stored.move_chord = Some(write.value);
    assert_eq!(Settings::read(&stored, false).move_chord, chord);
}

#[test]
fn a_direction_set_to_nothing_is_stored_as_none() {
    let mut settings = Settings::for_test();
    let write = settings
        .set_ring_zone(Direction::Up, None)
        .expect("a changed zone is written");
    assert_eq!(write.key, ring_zone_key(Direction::Up));
    assert_eq!(write.key, "ring_up");
    assert_eq!(write.value, "none");
    assert_eq!(settings.ring_zones[Direction::Up.index()], None);
    assert!(settings.set_ring_zone(Direction::Up, None).is_none());
}

#[test]
fn a_switch_turned_off_keeps_its_chord() {
    let mut settings = Settings::for_test();
    let write = settings.set_ring_enabled(false).expect("the switch is written");
    assert_eq!(write.value, "off");
    assert_eq!(settings.arrange_chord, Chord::none().with(Key::Control).with(Key::Command));
}

#[test]
fn launch_at_login_changes_only_once_registered() {
    let mut settings = Settings::for_test();
    assert_eq!(
        settings.set_launches_at_login(true, Err("not approved".to_owned())),
        Err("not approved".to_owned())
    );
    assert!(!settings.launches_at_login);
    assert_eq!(settings.set_launches_at_login(true, Ok(())), Ok(()));
    assert!(settings.launches_at_login);
}

#[test]
fn move_and_resize_have_their_own_switches() {
    let mut settings = Settings::for_test();
    let write = settings.set_move_enabled(false).expect("the switch is written");
    assert_eq!(write.key, "grab_move_enabled");
    assert_eq!(write.value, "off");
    assert!(settings.resize_enabled);
    let write = settings
        .set_resize_stays_on_screen(false)
        .expect("the constraint is written");
    assert_eq!(write.key, "grab_resize_stay_on_screen");
    assert!(settings.move_stays_on_screen);
    assert!(settings.set_resize_enabled(true).is_none());
}
