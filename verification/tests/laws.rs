use edged_core::grab::{mode_for, Mode};
use edged_core::screen::Side;
use edged_core::settings::Settings;
use edged_core::shortcut::{Chord, Key, Modifiers};
use edged_core::text::{compare_text, decimal, parse_decimal, Order};

#[test]
fn a_side_opposite_twice_is_itself() {
    assert_eq!(Side::Left.opposite(), Side::Right);
    assert_eq!(Side::Left.opposite().opposite(), Side::Left);
    assert_eq!(Side::Right.opposite().opposite(), Side::Right);
}

#[test]
fn an_empty_chord_holds_nothing() {
    let settings = Settings {
        move_chord: Chord::none(),
        ..Settings::for_test()
    };
    assert_eq!(mode_for(Modifiers::default(), &settings), None);
    let move_keys = Modifiers {
        control: true,
        shift: true,
        ..Modifiers::default()
    };
    assert_eq!(mode_for(move_keys, &settings), None);
    assert_eq!(
        mode_for(
            Modifiers {
                option: true,
                shift: true,
                ..Modifiers::default()
            },
            &settings
        ),
        Some(Mode::Resize)
    );
}

#[test]
fn a_number_written_reads_back() {
    for n in [0u64, 7, 10, 86_400, 1_700_000_000, u64::MAX] {
        assert_eq!(parse_decimal(&decimal(n)), Some(n));
    }
}

#[test]
fn text_order_flips_with_its_arguments() {
    for (a, b) in [("a", "b"), ("ab", "a"), ("Zebra", "apple"), ("same", "same")] {
        let forward = compare_text(a, b);
        let backward = compare_text(b, a);
        let flipped = match forward {
            Order::Less => Order::Greater,
            Order::Equal => Order::Equal,
            Order::Greater => Order::Less,
        };
        assert_eq!(backward, flipped);
    }
}

#[test]
fn every_key_survives_being_stored() {
    for key in Key::ALL {
        let chord = Chord::none().with(key);
        assert_eq!(Chord::from_stored(&chord.stored()), Some(chord));
        assert_eq!(Key::from_stored(key.stored()), Some(key));
    }
}
