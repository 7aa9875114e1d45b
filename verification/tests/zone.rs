use edged_core::zone::{Direction, Zone};

#[test]
fn every_zone_and_direction_survives_being_stored() {
    for zone in Zone::ALL {
        assert_eq!(Zone::from_stored(zone.stored()), Some(zone));
    }
    for (index, direction) in Direction::CLOCKWISE.into_iter().enumerate() {
        assert_eq!(direction.index(), index);
    }
    assert_eq!(
        Direction::default_zones()[Direction::Up.index()],
        Some(Zone::Fill)
    );
}
