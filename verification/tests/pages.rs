use edged_core::pages::{direction_choices, resize_clashes, Demo, Section};
use edged_core::settings::Settings;
use edged_core::zone::{Direction, Zone};

#[test]
fn the_settings_window_has_its_seven_sections() {
    let titles: Vec<&str> = Section::ALL.iter().map(|section| section.title()).collect();
    assert_eq!(
        titles,
        vec!["General", "Panel", "Previews", "Move", "Resize", "Ring", "About"]
    );
    for section in Section::ALL {
        assert_eq!(Section::from_id(section.id()), section);
    }
    assert_eq!(Section::from_id("elsewhere"), Section::General);
    assert_eq!(Section::Ring.description(), "Hold the shortcut, move in a direction, then release.");
    assert_eq!(Section::Ring.demo(), Demo::Ring(Direction::Up));
    assert_eq!(Section::General.demo(), Demo::Panel);
    assert!(!Section::About.shows_demo());
    assert!(Section::Previews.shows_demo());
}

#[test]
fn move_resize_and_ring_each_have_a_switch() {
    let mut settings = Settings::for_test();
    assert_eq!(Section::Panel.enabled(&settings), None);
    let write = Section::Resize.set_enabled(&mut settings, false).expect("written");
    assert_eq!(write.value, "off");
    assert_eq!(write.key, "grab_resize_enabled");
    assert!(Section::Resize.set_enabled(&mut settings, false).is_none());
    let ring = Section::Ring.set_enabled(&mut settings, false).expect("written");
    assert_eq!((ring.key.as_str(), ring.value.as_str()), ("ring", "off"));
    assert_eq!(Section::Resize.enabled(&settings), Some(false));
    assert_eq!(Section::Move.enabled(&settings), Some(true));
    assert!(Section::General.set_enabled(&mut settings, false).is_none());
}

#[test]
fn a_direction_menu_offers_every_zone_then_nothing() {
    let choices = direction_choices(Some(Zone::Centred));
    assert_eq!(choices.len(), 11);
    assert_eq!(choices[1], (Some(Zone::Centred), "Centre at 80%", true));
    assert_eq!(choices[0].2, false);
    assert_eq!(choices[10], (None, "Do nothing", false));
    let none = direction_choices(None);
    assert!(none[10].2);
}

#[test]
fn the_resize_page_warns_when_its_shortcut_is_the_move_shortcut() {
    let settings = Settings::for_test();
    assert!(!resize_clashes(&settings));
    let same = Settings {
        resize_chord: settings.move_chord,
        ..Settings::for_test()
    };
    assert!(resize_clashes(&same));
    let off = Settings {
        resize_enabled: false,
        ..same
    };
    assert!(!resize_clashes(&off));
}
