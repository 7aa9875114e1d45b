//! The places a window can be put in on its screen, and the directions of the ring that
//! pick them.

use vstd::prelude::*;

use crate::text::same_text;

verus! {

/// A place on the screen a window is put in.
#[derive(Clone, Copy, Debug, PartialEq, Eq, Structural)]
pub enum Zone {
    /// The whole of the screen's usable area.
    Fill,
    /// Most of it, centred.
    Centred,
    LeftHalf,
    RightHalf,
    TopHalf,
    BottomHalf,
    TopLeft,
    TopRight,
    BottomLeft,
    BottomRight,
}

/// Where the pointer went from where the ring opened: one of eight, as a compass has.
#[derive(Clone, Copy, Debug, PartialEq, Eq, Structural)]
pub enum Direction {
    Up,
    UpRight,
    Right,
    DownRight,
    Down,
    DownLeft,
    Left,
    UpLeft,
}

/// The zone each direction of the ring picks, in [`Direction::CLOCKWISE`]'s order; `None`
/// for a direction that does nothing.
pub type RingZones = [Option<Zone>; 8];

impl Zone {
    /// Every zone, in the order a menu lists them.
    pub const ALL: [Zone; 10] = [
        Zone::Fill,
        Zone::Centred,
        Zone::LeftHalf,
        Zone::RightHalf,
        Zone::TopHalf,
        Zone::BottomHalf,
        Zone::TopLeft,
        Zone::TopRight,
        Zone::BottomLeft,
        Zone::BottomRight,
    ];

    /// The zone a direction picks until set otherwise.
    pub open spec fn default_of(direction: Direction) -> Zone {
        match direction {
            Direction::Up => Zone::Fill,
            Direction::Down => Zone::Centred,
            Direction::Left => Zone::LeftHalf,
            Direction::Right => Zone::RightHalf,
            Direction::UpLeft => Zone::TopLeft,
            Direction::UpRight => Zone::TopRight,
            Direction::DownLeft => Zone::BottomLeft,
            Direction::DownRight => Zone::BottomRight,
        }
    }

    /// The zone each direction picks until set otherwise: up fills, down centres, left
    /// and right take their halves, and the diagonals their quarters.
    pub fn default_for(direction: Direction) -> (r: Option<Zone>)
        ensures
            r == Some(Zone::default_of(direction)),
    {
        Some(
            match direction {
                Direction::Up => Zone::Fill,
                Direction::Down => Zone::Centred,
                Direction::Left => Zone::LeftHalf,
                Direction::Right => Zone::RightHalf,
                Direction::UpLeft => Zone::TopLeft,
                Direction::UpRight => Zone::TopRight,
                Direction::DownLeft => Zone::BottomLeft,
                Direction::DownRight => Zone::BottomRight,
            },
        )
    }

    /// What the ring calls the zone.
    pub open spec fn label_text(self) -> Seq<char> {
        match self {
            Zone::Fill => "Fill"@,
            Zone::Centred => "80%"@,
            Zone::LeftHalf => "Left"@,
            Zone::RightHalf => "Right"@,
            Zone::TopHalf => "Top"@,
            Zone::BottomHalf => "Bottom"@,
            Zone::TopLeft => "◰"@,
            Zone::TopRight => "◳"@,
            Zone::BottomLeft => "◱"@,
            Zone::BottomRight => "◲"@,
        }
    }

    /// What a menu calls the zone.
    pub open spec fn name_text(self) -> Seq<char> {
        match self {
            Zone::Fill => "Fill the screen"@,
            Zone::Centred => "Centre at 80%"@,
            Zone::LeftHalf => "Left half"@,
            Zone::RightHalf => "Right half"@,
            Zone::TopHalf => "Top half"@,
            Zone::BottomHalf => "Bottom half"@,
            Zone::TopLeft => "Top-left quarter"@,
            Zone::TopRight => "Top-right quarter"@,
            Zone::BottomLeft => "Bottom-left quarter"@,
            Zone::BottomRight => "Bottom-right quarter"@,
        }
    }

    /// The zone's name in the defaults.
    pub open spec fn stored_text(self) -> Seq<char> {
        match self {
            Zone::Fill => "fill"@,
            Zone::Centred => "centred"@,
            Zone::LeftHalf => "left-half"@,
            Zone::RightHalf => "right-half"@,
            Zone::TopHalf => "top-half"@,
            Zone::BottomHalf => "bottom-half"@,
            Zone::TopLeft => "top-left"@,
            Zone::TopRight => "top-right"@,
            Zone::BottomLeft => "bottom-left"@,
            Zone::BottomRight => "bottom-right"@,
        }
    }

    /// What the ring calls the zone: a word or a glyph that fits beside its direction.
    pub fn label(self) -> (r: &'static str)
        ensures
            r@ == self.label_text(),
    {
        match self {
            Zone::Fill => "Fill",
            Zone::Centred => "80%",
            Zone::LeftHalf => "Left",
            Zone::RightHalf => "Right",
            Zone::TopHalf => "Top",
            Zone::BottomHalf => "Bottom",
            Zone::TopLeft => "◰",
            Zone::TopRight => "◳",
            Zone::BottomLeft => "◱",
            Zone::BottomRight => "◲",
        }
    }

    /// What a menu calls the zone.
    pub fn name(self) -> (r: &'static str)
        ensures
            r@ == self.name_text(),
    {
        match self {
            Zone::Fill => "Fill the screen",
            Zone::Centred => "Centre at 80%",
            Zone::LeftHalf => "Left half",
            Zone::RightHalf => "Right half",
            Zone::TopHalf => "Top half",
            Zone::BottomHalf => "Bottom half",
            Zone::TopLeft => "Top-left quarter",
            Zone::TopRight => "Top-right quarter",
            Zone::BottomLeft => "Bottom-left quarter",
            Zone::BottomRight => "Bottom-right quarter",
        }
    }

    /// The zone's name in the defaults.
    pub fn stored(self) -> (r: &'static str)
        ensures
            r@ == self.stored_text(),
    {
        match self {
            Zone::Fill => "fill",
            Zone::Centred => "centred",
            Zone::LeftHalf => "left-half",
            Zone::RightHalf => "right-half",
            Zone::TopHalf => "top-half",
            Zone::BottomHalf => "bottom-half",
            Zone::TopLeft => "top-left",
            Zone::TopRight => "top-right",
            Zone::BottomLeft => "bottom-left",
            Zone::BottomRight => "bottom-right",
        }
    }

    /// The zone whose stored name `value` is; `None` when no zone has that name.
    pub fn from_stored(value: &str) -> (r: Option<Zone>)
        ensures
            r == zone_named(value@),
    {
        proof {
            lemma_zone_names_differ();
        }
        let all = Zone::ALL;
        let mut i: usize = 0;
        while i < 10
            invariant
                i <= 10,
                all@ == zone_menu_order(),
                forall|j: int| 0 <= j < i ==> zone_menu_order()[j].stored_text() != value@,
            decreases 10 - i,
        {
            let zone = all[i];
            if same_text(zone.stored(), value) {
                proof {
                    lemma_zone_names_differ();
                    let found = choose|other: Zone| #[trigger] other.stored_text() == value@;
                    assert(found.stored_text() == zone.stored_text());
                }
                return Some(zone);
            }
            i = i + 1;
        }
        proof {
            assert forall|zone: Zone| #[trigger] zone.stored_text() != value@ by {
                let j = zone_menu_index(zone);
                assert(zone_menu_order()[j] == zone);
            }
        }
        None
    }
}

/// Every zone, in the order a menu lists them.
pub open spec fn zone_menu_order() -> Seq<Zone> {
    seq![
        Zone::Fill,
        Zone::Centred,
        Zone::LeftHalf,
        Zone::RightHalf,
        Zone::TopHalf,
        Zone::BottomHalf,
        Zone::TopLeft,
        Zone::TopRight,
        Zone::BottomLeft,
        Zone::BottomRight,
    ]
}

/// A zone's place in the menu's order.
pub open spec fn zone_menu_index(zone: Zone) -> int {
    match zone {
        Zone::Fill => 0,
        Zone::Centred => 1,
        Zone::LeftHalf => 2,
        Zone::RightHalf => 3,
        Zone::TopHalf => 4,
        Zone::BottomHalf => 5,
        Zone::TopLeft => 6,
        Zone::TopRight => 7,
        Zone::BottomLeft => 8,
        Zone::BottomRight => 9,
    }
}

/// The directions clockwise from up, as the ring lays them out.
pub open spec fn clockwise() -> Seq<Direction> {
    seq![
        Direction::Up,
        Direction::UpRight,
        Direction::Right,
        Direction::DownRight,
        Direction::Down,
        Direction::DownLeft,
        Direction::Left,
        Direction::UpLeft,
    ]
}

impl Direction {
    /// Clockwise from up, as the ring lays them out.
    pub const CLOCKWISE: [Direction; 8] = [
        Direction::Up,
        Direction::UpRight,
        Direction::Right,
        Direction::DownRight,
        Direction::Down,
        Direction::DownLeft,
        Direction::Left,
        Direction::UpLeft,
    ];

    /// The direction's place, clockwise from up.
    pub open spec fn place(self) -> int {
        match self {
            Direction::Up => 0,
            Direction::UpRight => 1,
            Direction::Right => 2,
            Direction::DownRight => 3,
            Direction::Down => 4,
            Direction::DownLeft => 5,
            Direction::Left => 6,
            Direction::UpLeft => 7,
        }
    }

    /// The zones the ring opens with until set otherwise, in clockwise order.
    pub open spec fn default_ring() -> Seq<Option<Zone>> {
        clockwise().map_values(|direction: Direction| Some(Zone::default_of(direction)))
    }

    /// The zones the ring opens with until set otherwise.
    pub fn default_zones() -> (r: RingZones)
        ensures
            r@ == Direction::default_ring(),
    {
        let zones = [
            Zone::default_for(Direction::Up),
            Zone::default_for(Direction::UpRight),
            Zone::default_for(Direction::Right),
            Zone::default_for(Direction::DownRight),
            Zone::default_for(Direction::Down),
            Zone::default_for(Direction::DownLeft),
            Zone::default_for(Direction::Left),
            Zone::default_for(Direction::UpLeft),
        ];
        assert(zones@ =~= Direction::default_ring());
        zones
    }

    /// This direction's place in [`Self::CLOCKWISE`], which is its place in a [`RingZones`].
    pub fn index(self) -> (r: usize)
        ensures
            r == self.place(),
            r < 8,
            clockwise()[r as int] == self,
    {
        let order = Direction::CLOCKWISE;
        let mut i: usize = 0;
        while i < 8
            invariant
                i <= 8,
                order@ == clockwise(),
                forall|j: int| 0 <= j < i ==> clockwise()[j] != self,
            decreases 8 - i,
        {
            if order[i] == self {
                return i;
            }
            i = i + 1;
        }
        assert(clockwise()[self.place()] == self);
        i
    }

    /// What a menu calls the direction.
    pub open spec fn name_text(self) -> Seq<char> {
        match self {
            Direction::Up => "Up"@,
            Direction::UpRight => "Up-right"@,
            Direction::Right => "Right"@,
            Direction::DownRight => "Down-right"@,
            Direction::Down => "Down"@,
            Direction::DownLeft => "Down-left"@,
            Direction::Left => "Left"@,
            Direction::UpLeft => "Up-left"@,
        }
    }

    /// The direction's name in the defaults.
    pub open spec fn stored_text(self) -> Seq<char> {
        match self {
            Direction::Up => "up"@,
            Direction::UpRight => "up-right"@,
            Direction::Right => "right"@,
            Direction::DownRight => "down-right"@,
            Direction::Down => "down"@,
            Direction::DownLeft => "down-left"@,
            Direction::Left => "left"@,
            Direction::UpLeft => "up-left"@,
        }
    }

    /// What a menu calls the direction.
    pub fn name(self) -> (r: &'static str)
        ensures
            r@ == self.name_text(),
    {
        match self {
            Direction::Up => "Up",
            Direction::UpRight => "Up-right",
            Direction::Right => "Right",
            Direction::DownRight => "Down-right",
            Direction::Down => "Down",
            Direction::DownLeft => "Down-left",
            Direction::Left => "Left",
            Direction::UpLeft => "Up-left",
        }
    }

    /// The direction's name in the defaults.
    pub fn stored(self) -> (r: &'static str)
        ensures
            r@ == self.stored_text(),
    {
        match self {
            Direction::Up => "up",
            Direction::UpRight => "up-right",
            Direction::Right => "right",
            Direction::DownRight => "down-right",
            Direction::Down => "down",
            Direction::DownLeft => "down-left",
            Direction::Left => "left",
            Direction::UpLeft => "up-left",
        }
    }
}

/// No two zones share a stored name: the name a zone is stored under reads back as that
/// zone.
pub proof fn lemma_zone_names_differ()
    ensures
        forall|a: Zone, b: Zone| #[trigger] a.stored_text() == #[trigger] b.stored_text() ==> a
            == b,
{
    reveal_strlit("fill");
    reveal_strlit("centred");
    reveal_strlit("left-half");
    reveal_strlit("right-half");
    reveal_strlit("top-half");
    reveal_strlit("bottom-half");
    reveal_strlit("top-left");
    reveal_strlit("top-right");
    reveal_strlit("bottom-left");
    reveal_strlit("bottom-right");
    assert forall|a: Zone, b: Zone| #[trigger] a.stored_text() == #[trigger] b.stored_text()
        implies a == b by {
        if a != b {
            assert(a.stored_text().len() != b.stored_text().len() || a.stored_text()[0]
                != b.stored_text()[0] || a.stored_text()[1] != b.stored_text()[1]
                || a.stored_text()[4] != b.stored_text()[4] || a.stored_text()[7]
                != b.stored_text()[7]);
        }
    }
}

/// The zone a stored name names, if any.
pub open spec fn zone_named(value: Seq<char>) -> Option<Zone> {
    if exists|zone: Zone| #[trigger] zone.stored_text() == value {
        Some(choose|zone: Zone| #[trigger] zone.stored_text() == value)
    } else {
        None
    }
}

/// Every zone survives being stored: the name it is stored under reads back as it.
pub proof fn lemma_zone_survives_storing(zone: Zone)
    ensures
        zone_named(zone.stored_text()) == Some(zone),
{
    lemma_zone_names_differ();
    let found = choose|other: Zone| #[trigger] other.stored_text() == zone.stored_text();
    assert(found.stored_text() == zone.stored_text());
}

/// Every direction sits at its own place in the clockwise order, the one its zone takes
/// in a ring.
pub proof fn lemma_direction_places(direction: Direction)
    ensures
        0 <= direction.place() < 8,
        clockwise()[direction.place()] == direction,
        Direction::default_ring()[direction.place()] == Some(Zone::default_of(direction)),
{
}

/// Which way a direction points on the screen, as steps right and down (the screen's y
/// grows downwards).
pub open spec fn direction_leaning(direction: Direction) -> (int, int) {
    match direction {
        Direction::Up => (0, -1),
        Direction::UpRight => (1, -1),
        Direction::Right => (1, 0),
        Direction::DownRight => (1, 1),
        Direction::Down => (0, 1),
        Direction::DownLeft => (-1, 1),
        Direction::Left => (-1, 0),
        Direction::UpLeft => (-1, -1),
    }
}

/// Which side of the screen a zone sits on, as steps right and down from the middle: a
/// half leans to its side, a quarter to its corner, and the full and centred zones to
/// none.
pub open spec fn zone_leaning(zone: Zone) -> (int, int) {
    match zone {
        Zone::Fill => (0, 0),
        Zone::Centred => (0, 0),
        Zone::LeftHalf => (-1, 0),
        Zone::RightHalf => (1, 0),
        Zone::TopHalf => (0, -1),
        Zone::BottomHalf => (0, 1),
        Zone::TopLeft => (-1, -1),
        Zone::TopRight => (1, -1),
        Zone::BottomLeft => (-1, 1),
        Zone::BottomRight => (1, 1),
    }
}

/// Each direction of the ring opens on a zone of its own: up fills the screen, down
/// centres the window, and every other direction puts it in the half or quarter on the
/// side it points to; no two directions share a zone.
pub proof fn lemma_default_zones_point_their_way(a: Direction, b: Direction)
    ensures
        Zone::default_of(Direction::Up) == Zone::Fill,
        Zone::default_of(Direction::Down) == Zone::Centred,
        a != Direction::Up && a != Direction::Down ==> zone_leaning(Zone::default_of(a))
            == direction_leaning(a),
        a != b ==> Zone::default_of(a) != Zone::default_of(b),
{
}

} // verus!
