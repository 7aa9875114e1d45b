use edged_core::shortcut::{Chord, Key, Modifiers};

#[test]
fn a_chord_matches_exactly_the_keys_it_names() {
    let chord = Chord::none().with(Key::Option).with(Key::Control);
    let held = |option, control, shift| Modifiers {
        option,
        control,
        shift,
        command: false,
    };
    assert!(chord.matches(held(true, true, false)));
    assert!(!chord.matches(held(true, false, false)));
    assert!(!chord.matches(held(true, true, true)));
    assert!(!Chord::none().matches(held(false, false, false)));
}

#[test]
fn a_chord_survives_being_stored_and_reads_as_symbols() {
    let chord = Chord::none().with(Key::Option).with(Key::Shift);
    assert_eq!(chord.stored(), "option+shift");
    assert_eq!(Chord::from_stored("option+shift"), Some(chord));
    assert_eq!(Chord::from_stored(""), Some(Chord::none()));
    assert_eq!(Chord::from_stored("option+fn"), None);
    assert_eq!(chord.label(), "⌥⇧");
    assert_eq!(chord.set(Key::Shift, false).label(), "⌥");
}
