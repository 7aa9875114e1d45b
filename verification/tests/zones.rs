use edged_core::settings::ring_zone_key;
use edged_core::zone::{Direction, Zone};

#[test]
fn each_direction_opens_on_its_own_zone() {
    assert_eq!(Zone::default_for(Direction::Down), Some(Zone::Centred));
    assert_eq!(Zone::default_for(Direction::UpLeft), Some(Zone::TopLeft));
    let zones = Direction::default_zones();
    assert_eq!(zones[Direction::DownRight.index()], Some(Zone::BottomRight));
    assert_eq!(zones[Direction::Left.index()], Some(Zone::LeftHalf));
}

#[test]
fn zones_and_directions_have_their_names() {
    assert_eq!(Zone::Centred.label(), "80%");
    assert_eq!(Zone::TopLeft.label(), "◰");
    assert_eq!(Zone::Fill.name(), "Fill the screen");
    assert_eq!(Direction::UpRight.name(), "Up-right");
    assert_eq!(Direction::UpRight.stored(), "up-right");
    assert_eq!(ring_zone_key(Direction::DownLeft), "ring_down-left");
    assert_eq!(Zone::from_stored("middle"), None);
}
