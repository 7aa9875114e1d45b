//! What the user set about Edged itself, kept across launches in the defaults: each
//! setting is written under its own key as a short text, and read back from it, with a
//! default where nothing was stored or what was stored does not read.

use vstd::prelude::*;
use vstd::string::*;

use crate::screen::Side;
use crate::shortcut::{chord_from_text, lemma_chord_survives_storing, Chord, Key};
use crate::text::same_text;
use crate::zone::{
    clockwise, lemma_zone_survives_storing, zone_named, Direction, RingZones, Zone,
};

verus! {

/// When a window's preview shows.
#[derive(Clone, Copy, Debug, PartialEq, Eq, Structural)]
pub enum PreviewTrigger {
    /// Whenever the pointer rests on a window's row.
    Hover,
    /// Only while the Command key is held as the pointer rests on one.
    CommandKey,
}

/// Which corner a held window is resized from.
#[derive(Clone, Copy, Debug, PartialEq, Eq, Structural)]
pub enum ResizeCorner {
    /// The bottom-right corner, wherever the pointer took hold.
    BottomRight,
    /// The corner nearest the pointer when the hold began.
    Nearest,
}

/// How the panel comes out when the pointer reaches its strip.
#[derive(Clone, Copy, Debug, PartialEq, Eq, Structural)]
pub enum PanelReveal {
    /// The icons stay at the screen's edge and the titles unfold beside them.
    Unfold,
    /// The whole panel slides out, icons first, the titles following them.
    Slide,
}

/// The user asked for the settings window.
#[derive(Clone, Copy, Debug)]
pub struct SettingsRequested;

/// The keys the settings are stored under.
pub const PREVIEW_TRIGGER_KEY: &'static str = "preview_trigger";
pub const RESIZE_CORNER_KEY: &'static str = "grab_resize_corner";
pub const PANEL_REVEAL_KEY: &'static str = "panel_reveal";
pub const PANEL_SIDE_KEY: &'static str = "panel_side";
pub const MOVE_ENABLED_KEY: &'static str = "grab_move_enabled";
pub const RESIZE_ENABLED_KEY: &'static str = "grab_resize_enabled";
pub const MOVE_CHORD_KEY: &'static str = "grab_move";
pub const RESIZE_CHORD_KEY: &'static str = "grab_resize";
pub const ARRANGE_CHORD_KEY: &'static str = "grab_arrange";
pub const MOVE_STAYS_KEY: &'static str = "grab_move_stay_on_screen";
pub const RESIZE_STAYS_KEY: &'static str = "grab_resize_stay_on_screen";
pub const RING_KEY: &'static str = "ring";

impl PreviewTrigger {
    pub open spec fn stored_text(self) -> Seq<char> {
        match self {
            PreviewTrigger::Hover => "hover"@,
            PreviewTrigger::CommandKey => "command"@,
        }
    }

    /// The trigger a stored text names, if any.
    pub open spec fn named(value: Seq<char>) -> Option<PreviewTrigger> {
        if value == "hover"@ {
            Some(PreviewTrigger::Hover)
        } else if value == "command"@ {
            Some(PreviewTrigger::CommandKey)
        } else {
            None
        }
    }

    pub fn from_stored(value: &str) -> (r: Option<PreviewTrigger>)
        ensures
            r == PreviewTrigger::named(value@),
    {
        if same_text(value, "hover") {
            Some(PreviewTrigger::Hover)
        } else if same_text(value, "command") {
            Some(PreviewTrigger::CommandKey)
        } else {
            None
        }
    }

    pub fn stored(self) -> (r: &'static str)
        ensures
            r@ == self.stored_text(),
    {
        match self {
            PreviewTrigger::Hover => "hover",
            PreviewTrigger::CommandKey => "command",
        }
    }
}

impl ResizeCorner {
    pub open spec fn stored_text(self) -> Seq<char> {
        match self {
            ResizeCorner::BottomRight => "bottom-right"@,
            ResizeCorner::Nearest => "nearest"@,
        }
    }

    /// The corner setting a stored text names, if any.
    pub open spec fn named(value: Seq<char>) -> Option<ResizeCorner> {
        if value == "bottom-right"@ {
            Some(ResizeCorner::BottomRight)
        } else if value == "nearest"@ {
            Some(ResizeCorner::Nearest)
        } else {
            None
        }
    }

    pub fn from_stored(value: &str) -> (r: Option<ResizeCorner>)
        ensures
            r == ResizeCorner::named(value@),
    {
        if same_text(value, "bottom-right") {
            Some(ResizeCorner::BottomRight)
        } else if same_text(value, "nearest") {
            Some(ResizeCorner::Nearest)
        } else {
            None
        }
    }

    pub fn stored(self) -> (r: &'static str)
        ensures
            r@ == self.stored_text(),
    {
        match self {
            ResizeCorner::BottomRight => "bottom-right",
            ResizeCorner::Nearest => "nearest",
        }
    }
}

impl PanelReveal {
    pub open spec fn stored_text(self) -> Seq<char> {
        match self {
            PanelReveal::Unfold => "unfold"@,
            PanelReveal::Slide => "slide"@,
        }
    }

    /// The reveal a stored text names, if any.
    pub open spec fn named(value: Seq<char>) -> Option<PanelReveal> {
        if value == "unfold"@ {
            Some(PanelReveal::Unfold)
        } else if value == "slide"@ {
            Some(PanelReveal::Slide)
        } else {
            None
        }
    }

    pub fn from_stored(value: &str) -> (r: Option<PanelReveal>)
        ensures
            r == PanelReveal::named(value@),
    {
        if same_text(value, "unfold") {
            Some(PanelReveal::Unfold)
        } else if same_text(value, "slide") {
            Some(PanelReveal::Slide)
        } else {
            None
        }
    }

    pub fn stored(self) -> (r: &'static str)
        ensures
            r@ == self.stored_text(),
    {
        match self {
            PanelReveal::Unfold => "unfold",
            PanelReveal::Slide => "slide",
        }
    }
}

/// The side's name in the defaults.
pub open spec fn side_text(side: Side) -> Seq<char> {
    match side {
        Side::Left => "left"@,
        Side::Right => "right"@,
    }
}

/// The side a stored text names, if any.
pub open spec fn side_named(value: Seq<char>) -> Option<Side> {
    if value == "left"@ {
        Some(Side::Left)
    } else if value == "right"@ {
        Some(Side::Right)
    } else {
        None
    }
}

pub fn side_from_stored(value: &str) -> (r: Option<Side>)
    ensures
        r == side_named(value@),
{
    if same_text(value, "left") {
        Some(Side::Left)
    } else if same_text(value, "right") {
        Some(Side::Right)
    } else {
        None
    }
}

pub fn side_stored(side: Side) -> (r: &'static str)
    ensures
        r@ == side_text(side),
{
    match side {
        Side::Left => "left",
        Side::Right => "right",
    }
}

/// The stored key of a ring direction's zone: `ring_` and the direction's name.
pub open spec fn ring_zone_key_text(direction: Direction) -> Seq<char> {
    "ring_"@ + direction.stored_text()
}

/// The stored key of a ring direction's zone.
pub fn ring_zone_key(direction: Direction) -> (r: String)
    ensures
        r@ == ring_zone_key_text(direction),
{
    String::from_str("ring_").concat(direction.stored())
}

/// A switch as stored: `on` or `off`.
pub open spec fn switch_text(on: bool) -> Seq<char> {
    if on {
        "on"@
    } else {
        "off"@
    }
}

/// A switch as read: on unless `off` was stored.
pub open spec fn switch_read(stored: Option<Seq<char>>) -> bool {
    stored != Some("off"@)
}

/// A ring direction's zone as stored: the zone's name, or `none` for no zone.
pub open spec fn ring_text(zone: Option<Zone>) -> Seq<char> {
    match zone {
        Some(zone) => zone.stored_text(),
        None => "none"@,
    }
}

/// A ring direction's zone as read: no zone for `none`, the zone named, or the
/// direction's default where nothing was stored or the name is no zone's.
pub open spec fn ring_read(direction: Direction, stored: Option<Seq<char>>) -> Option<Zone> {
    match stored {
        Some(text) => if text == "none"@ {
            None
        } else {
            match zone_named(text) {
                Some(zone) => Some(zone),
                None => Some(Zone::default_of(direction)),
            }
        },
        None => Some(Zone::default_of(direction)),
    }
}

/// A chord as read: the chord stored, or the default where none was or it does not read.
pub open spec fn chord_read(stored: Option<Seq<char>>, default: Chord) -> Chord {
    match stored {
        Some(text) => match chord_from_text(text) {
            Some(chord) => chord,
            None => default,
        },
        None => default,
    }
}

/// A stored value read by `read`, or a default for none.
pub open spec fn or_default<T>(value: Option<T>, default: T) -> T {
    match value {
        Some(value) => value,
        None => default,
    }
}

/// The text of a stored value, if one was stored.
pub open spec fn text_of(stored: Option<String>) -> Option<Seq<char>> {
    match stored {
        Some(text) => Some(text@),
        None => None,
    }
}

/// The chords a fresh install holds windows with: ⌃⇧ moves.
pub fn default_move_chord() -> (r: Chord)
    ensures
        r == Chord::empty().with_key(Key::Control).with_key(Key::Shift),
{
    Chord::none().with(Key::Control).with(Key::Shift)
}

/// ⌥⇧ resizes.
pub fn default_resize_chord() -> (r: Chord)
    ensures
        r == Chord::empty().with_key(Key::Option).with_key(Key::Shift),
{
    Chord::none().with(Key::Option).with(Key::Shift)
}

/// ⌃⌘ arranges.
pub fn default_arrange_chord() -> (r: Chord)
    ensures
        r == Chord::empty().with_key(Key::Control).with_key(Key::Command),
{
    Chord::none().with(Key::Control).with(Key::Command)
}

/// What the defaults hold for each setting, as read at launch: `None` where nothing was
/// stored.
pub struct StoredSettings {
    pub panel_side: Option<String>,
    pub panel_reveal: Option<String>,
    pub preview_trigger: Option<String>,
    pub move_enabled: Option<String>,
    pub resize_enabled: Option<String>,
    pub move_chord: Option<String>,
    pub resize_chord: Option<String>,
    pub resize_corner: Option<String>,
    pub ring: Option<String>,
    pub arrange_chord: Option<String>,
    pub move_stays_on_screen: Option<String>,
    pub resize_stays_on_screen: Option<String>,
    /// Each direction's zone, in clockwise order, under [`ring_zone_key`].
    pub ring_zones: [Option<String>; 8],
}

/// One value to write to the defaults: a setting changed.
pub struct DefaultWrite {
    pub key: String,
    pub value: String,
}

pub struct Settings {
    /// Whether macOS starts Edged at login.
    pub launches_at_login: bool,
    /// The screen edge the panel sits at.
    pub panel_side: Side,
    /// How the panel comes out.
    pub panel_reveal: PanelReveal,
    pub preview_trigger: PreviewTrigger,
    /// Whether holding the move chord moves the window under the pointer.
    pub move_enabled: bool,
    /// Whether holding the resize chord resizes the window under the pointer.
    pub resize_enabled: bool,
    /// The keys that move the window under the pointer while held.
    pub move_chord: Chord,
    /// The keys that resize it while held.
    pub resize_chord: Chord,
    /// The corner the resize drags.
    pub resize_corner: ResizeCorner,
    /// Whether holding the arrange chord shows the ring.
    pub ring_enabled: bool,
    /// The keys that show the ring of zones the window under the pointer can be put in.
    pub arrange_chord: Chord,
    /// Whether a moved window stops at the screen's edge.
    pub move_stays_on_screen: bool,
    /// Whether a resize stops at the screen's edge.
    pub resize_stays_on_screen: bool,
    /// The zone each direction of the ring picks.
    pub ring_zones: RingZones,
}

/// A stored chord, or the default where none was stored or it does not read.
pub fn chord_default(stored: &Option<String>, default: Chord) -> (r: Chord)
    ensures
        r == chord_read(text_of(*stored), default),
{
    match stored {
        Some(text) => match Chord::from_stored(text.as_str()) {
            Some(chord) => chord,
            None => default,
        },
        None => default,
    }
}

/// Whether a stored switch reads as on: anything but `off`.
pub fn switch_default(stored: &Option<String>) -> (r: bool)
    ensures
        r == switch_read(text_of(*stored)),
{
    match stored {
        Some(text) => {
            let off = same_text(text.as_str(), "off");
            !off
        },
        None => true,
    }
}

/// A direction's stored zone, or its default.
pub fn ring_zone_default(direction: Direction, stored: &Option<String>) -> (r: Option<Zone>)
    ensures
        r == ring_read(direction, text_of(*stored)),
{
    match stored {
        Some(text) => {
            if same_text(text.as_str(), "none") {
                None
            } else {
                match Zone::from_stored(text.as_str()) {
                    Some(zone) => Some(zone),
                    None => Zone::default_for(direction),
                }
            }
        },
        None => Zone::default_for(direction),
    }
}

/// A write of `value` under `key`.
fn write(key: &str, value: &str) -> (r: DefaultWrite)
    ensures
        r.key@ == key@,
        r.value@ == value@,
{
    DefaultWrite { key: String::from_str(key), value: String::from_str(value) }
}

/// Whether two ring choices are the same.
fn same_zone(a: Option<Zone>, b: Option<Zone>) -> (r: bool)
    ensures
        r == (a == b),
{
    match (a, b) {
        (Some(a), Some(b)) => a == b,
        (None, None) => true,
        _ => false,
    }
}

/// A ring direction's stored text: the zone's name, or `none`.
pub fn ring_stored(zone: Option<Zone>) -> (r: &'static str)
    ensures
        r@ == ring_text(zone),
{
    proof {
        reveal_strlit("none");
    }
    match zone {
        Some(zone) => zone.stored(),
        None => "none",
    }
}

/// A switch's stored text.
fn switch_stored(on: bool) -> (r: &'static str)
    ensures
        r@ == switch_text(on),
{
    if on {
        "on"
    } else {
        "off"
    }
}

impl Settings {
    /// Whether `self` is what reading `stored` gives, with the login item as macOS says.
    pub open spec fn read_from(self, stored: StoredSettings, launches_at_login: bool) -> bool {
        &&& self.launches_at_login == launches_at_login
        &&& self.panel_side == or_default(
            match text_of(stored.panel_side) {
                Some(text) => side_named(text),
                None => None,
            },
            Side::Right,
        )
        &&& self.panel_reveal == or_default(
            match text_of(stored.panel_reveal) {
                Some(text) => PanelReveal::named(text),
                None => None,
            },
            PanelReveal::Unfold,
        )
        &&& self.preview_trigger == or_default(
            match text_of(stored.preview_trigger) {
                Some(text) => PreviewTrigger::named(text),
                None => None,
            },
            PreviewTrigger::CommandKey,
        )
        &&& self.move_enabled == switch_read(text_of(stored.move_enabled))
        &&& self.resize_enabled == switch_read(text_of(stored.resize_enabled))
        &&& self.move_chord == chord_read(
            text_of(stored.move_chord),
            Chord::empty().with_key(Key::Control).with_key(Key::Shift),
        )
        &&& self.resize_chord == chord_read(
            text_of(stored.resize_chord),
            Chord::empty().with_key(Key::Option).with_key(Key::Shift),
        )
        &&& self.resize_corner == or_default(
            match text_of(stored.resize_corner) {
                Some(text) => ResizeCorner::named(text),
                None => None,
            },
            ResizeCorner::BottomRight,
        )
        &&& self.ring_enabled == switch_read(text_of(stored.ring))
        &&& self.arrange_chord == chord_read(
            text_of(stored.arrange_chord),
            Chord::empty().with_key(Key::Control).with_key(Key::Command),
        )
        &&& self.move_stays_on_screen == switch_read(text_of(stored.move_stays_on_screen))
        &&& self.resize_stays_on_screen == switch_read(text_of(stored.resize_stays_on_screen))
        &&& forall|i: int|
            0 <= i < 8 ==> #[trigger] self.ring_zones@[i] == ring_read(
                clockwise()[i],
                text_of(stored.ring_zones@[i]),
            )
    }

    /// Sets whether a moved window stops at the screen's edge; a write of `on` or `off` under its key when it
    /// changed, nothing when it did not.
    pub fn set_move_stays_on_screen(&mut self, value: bool) -> (r: Option<DefaultWrite>)
        ensures
            old(self).move_stays_on_screen == value ==> r is None && *final(self) == *old(self),
            old(self).move_stays_on_screen != value ==> (r matches Some(w) && w.key@ == MOVE_STAYS_KEY@
                && w.value@ == switch_text(value)),
            *final(self) == (Settings { move_stays_on_screen: value, ..*old(self) }),
    {
        if self.move_stays_on_screen == value {
            return None;
        }
        self.move_stays_on_screen = value;
        Some(write(MOVE_STAYS_KEY, switch_stored(value)))
    }

    /// Sets whether a resize stops at the screen's edge; a write of `on` or `off` under its key when it
    /// changed, nothing when it did not.
    pub fn set_resize_stays_on_screen(&mut self, value: bool) -> (r: Option<DefaultWrite>)
        ensures
            old(self).resize_stays_on_screen == value ==> r is None && *final(self) == *old(self),
            old(self).resize_stays_on_screen != value ==> (r matches Some(w) && w.key@ == RESIZE_STAYS_KEY@
                && w.value@ == switch_text(value)),
            *final(self) == (Settings { resize_stays_on_screen: value, ..*old(self) }),
    {
        if self.resize_stays_on_screen == value {
            return None;
        }
        self.resize_stays_on_screen = value;
        Some(write(RESIZE_STAYS_KEY, switch_stored(value)))
    }

    /// Sets the chord; a write of the chord's stored text under its key when it
    /// changed, nothing when it did not.
    pub fn set_arrange_chord(&mut self, chord: Chord) -> (r: Option<DefaultWrite>)
        ensures
            old(self).arrange_chord == chord ==> r is None && *final(self) == *old(self),
            old(self).arrange_chord != chord ==> (r matches Some(w) && w.key@ == ARRANGE_CHORD_KEY@
                && w.value@ == chord.stored_text()),
            *final(self) == (Settings { arrange_chord: chord, ..*old(self) }),
    {
        if self.arrange_chord == chord {
            return None;
        }
        self.arrange_chord = chord;
        let value = chord.stored();
        Some(DefaultWrite { key: String::from_str(ARRANGE_CHORD_KEY), value })
    }

    /// Sets the corner a resize drags; a write of its stored name under its key when it changed,
    /// nothing when it did not.
    pub fn set_resize_corner(&mut self, value: ResizeCorner) -> (r: Option<DefaultWrite>)
        ensures
            old(self).resize_corner == value ==> r is None && *final(self) == *old(self),
            old(self).resize_corner != value ==> (r matches Some(w) && w.key@ == RESIZE_CORNER_KEY@
                && w.value@ == value.stored_text()),
            *final(self) == (Settings { resize_corner: value, ..*old(self) }),
    {
        if self.resize_corner == value {
            return None;
        }
        self.resize_corner = value;
        Some(write(RESIZE_CORNER_KEY, value.stored()))
    }

    /// Sets the chord; a write of the chord's stored text under its key when it
    /// changed, nothing when it did not.
    pub fn set_move_chord(&mut self, chord: Chord) -> (r: Option<DefaultWrite>)
        ensures
            old(self).move_chord == chord ==> r is None && *final(self) == *old(self),
            old(self).move_chord != chord ==> (r matches Some(w) && w.key@ == MOVE_CHORD_KEY@
                && w.value@ == chord.stored_text()),
            *final(self) == (Settings { move_chord: chord, ..*old(self) }),
    {
        if self.move_chord == chord {
            return None;
        }
        self.move_chord = chord;
        let value = chord.stored();
        Some(DefaultWrite { key: String::from_str(MOVE_CHORD_KEY), value })
    }

    /// Sets the chord; a write of the chord's stored text under its key when it
    /// changed, nothing when it did not.
    pub fn set_resize_chord(&mut self, chord: Chord) -> (r: Option<DefaultWrite>)
        ensures
            old(self).resize_chord == chord ==> r is None && *final(self) == *old(self),
            old(self).resize_chord != chord ==> (r matches Some(w) && w.key@ == RESIZE_CHORD_KEY@
                && w.value@ == chord.stored_text()),
            *final(self) == (Settings { resize_chord: chord, ..*old(self) }),
    {
        if self.resize_chord == chord {
            return None;
        }
        self.resize_chord = chord;
        let value = chord.stored();
        Some(DefaultWrite { key: String::from_str(RESIZE_CHORD_KEY), value })
    }

    /// Sets the edge the panel sits at; a write of its stored name under its key when it changed,
    /// nothing when it did not.
    pub fn set_panel_side(&mut self, value: Side) -> (r: Option<DefaultWrite>)
        ensures
            old(self).panel_side == value ==> r is None && *final(self) == *old(self),
            old(self).panel_side != value ==> (r matches Some(w) && w.key@ == PANEL_SIDE_KEY@
                && w.value@ == side_text(value)),
            *final(self) == (Settings { panel_side: value, ..*old(self) }),
    {
        if self.panel_side == value {
            return None;
        }
        self.panel_side = value;
        Some(write(PANEL_SIDE_KEY, side_stored(value)))
    }

    /// Sets the way the panel comes out; a write of its stored name under its key when it changed,
    /// nothing when it did not.
    pub fn set_panel_reveal(&mut self, value: PanelReveal) -> (r: Option<DefaultWrite>)
        ensures
            old(self).panel_reveal == value ==> r is None && *final(self) == *old(self),
            old(self).panel_reveal != value ==> (r matches Some(w) && w.key@ == PANEL_REVEAL_KEY@
                && w.value@ == value.stored_text()),
            *final(self) == (Settings { panel_reveal: value, ..*old(self) }),
    {
        if self.panel_reveal == value {
            return None;
        }
        self.panel_reveal = value;
        Some(write(PANEL_REVEAL_KEY, value.stored()))
    }

    /// Sets whether holding the arrange chord shows the ring; a write of `on` or `off` under its key when it changed,
    /// nothing when it did not.
    pub fn set_ring_enabled(&mut self, value: bool) -> (r: Option<DefaultWrite>)
        ensures
            old(self).ring_enabled == value ==> r is None && *final(self) == *old(self),
            old(self).ring_enabled != value ==> (r matches Some(w) && w.key@ == RING_KEY@
                && w.value@ == switch_text(value)),
            *final(self) == (Settings { ring_enabled: value, ..*old(self) }),
    {
        if self.ring_enabled == value {
            return None;
        }
        self.ring_enabled = value;
        Some(write(RING_KEY, switch_stored(value)))
    }

    /// Switches moving by the move chord on or off; the chord is kept; a write of `on` or `off` under its key when it
    /// changed, nothing when it did not.
    pub fn set_move_enabled(&mut self, value: bool) -> (r: Option<DefaultWrite>)
        ensures
            old(self).move_enabled == value ==> r is None && *final(self) == *old(self),
            old(self).move_enabled != value ==> (r matches Some(w) && w.key@ == MOVE_ENABLED_KEY@
                && w.value@ == switch_text(value)),
            *final(self) == (Settings { move_enabled: value, ..*old(self) }),
    {
        if self.move_enabled == value {
            return None;
        }
        self.move_enabled = value;
        Some(write(MOVE_ENABLED_KEY, switch_stored(value)))
    }

    /// Switches resizing by the resize chord on or off; the chord is kept; a write of `on` or `off` under its key when it
    /// changed, nothing when it did not.
    pub fn set_resize_enabled(&mut self, value: bool) -> (r: Option<DefaultWrite>)
        ensures
            old(self).resize_enabled == value ==> r is None && *final(self) == *old(self),
            old(self).resize_enabled != value ==> (r matches Some(w) && w.key@ == RESIZE_ENABLED_KEY@
                && w.value@ == switch_text(value)),
            *final(self) == (Settings { resize_enabled: value, ..*old(self) }),
    {
        if self.resize_enabled == value {
            return None;
        }
        self.resize_enabled = value;
        Some(write(RESIZE_ENABLED_KEY, switch_stored(value)))
    }

    /// Sets the moment a preview shows; a write of its stored name under its key when it changed,
    /// nothing when it did not.
    pub fn set_preview_trigger(&mut self, value: PreviewTrigger) -> (r: Option<DefaultWrite>)
        ensures
            old(self).preview_trigger == value ==> r is None && *final(self) == *old(self),
            old(self).preview_trigger != value ==> (r matches Some(w) && w.key@ == PREVIEW_TRIGGER_KEY@
                && w.value@ == value.stored_text()),
            *final(self) == (Settings { preview_trigger: value, ..*old(self) }),
    {
        if self.preview_trigger == value {
            return None;
        }
        self.preview_trigger = value;
        Some(write(PREVIEW_TRIGGER_KEY, value.stored()))
    }

    /// Sets what a direction of the ring does, `None` for nothing; a write of the zone's
    /// name, or `none`, under the direction's key when it changed, nothing when it did
    /// not.
    pub fn set_ring_zone(&mut self, direction: Direction, zone: Option<Zone>) -> (r: Option<
        DefaultWrite,
    >)
        ensures
            old(self).ring_zones@[direction.place()] == zone ==> r is None && *final(self)
                == *old(self),
            old(self).ring_zones@[direction.place()] != zone ==> (r matches Some(w) && w.key@
                == ring_zone_key_text(direction) && w.value@ == ring_text(zone)),
            final(self).ring_zones@ == old(self).ring_zones@.update(direction.place(), zone),
            final(self).same_but_ring(*old(self)),
    {
        let index = direction.index();
        if same_zone(self.ring_zones[index], zone) {
            assert(old(self).ring_zones@.update(direction.place(), zone) =~= old(
                self,
            ).ring_zones@);
            return None;
        }
        self.ring_zones[index] = zone;
        Some(DefaultWrite { key: ring_zone_key(direction), value: String::from_str(ring_stored(zone)) })
    }

    /// Takes whether macOS starts Edged at login, given how registering or unregistering
    /// the login item went: the setting changes only when that succeeded, and its error
    /// comes back otherwise.
    pub fn set_launches_at_login(&mut self, launches: bool, registered: Result<(), String>) -> (r:
        Result<(), String>)
        ensures
            r == registered,
            registered is Ok ==> *final(self) == (Settings {
                launches_at_login: launches,
                ..*old(self)
            }),
            registered is Err ==> *final(self) == *old(self),
    {
        if registered.is_ok() {
            self.launches_at_login = launches;
        }
        registered
    }

    /// Whether `self` and `other` agree on every setting but the ring's zones.
    pub open spec fn same_but_ring(self, other: Settings) -> bool {
        &&& self.launches_at_login == other.launches_at_login
        &&& self.panel_side == other.panel_side
        &&& self.panel_reveal == other.panel_reveal
        &&& self.preview_trigger == other.preview_trigger
        &&& self.move_enabled == other.move_enabled
        &&& self.resize_enabled == other.resize_enabled
        &&& self.move_chord == other.move_chord
        &&& self.resize_chord == other.resize_chord
        &&& self.resize_corner == other.resize_corner
        &&& self.ring_enabled == other.ring_enabled
        &&& self.arrange_chord == other.arrange_chord
        &&& self.move_stays_on_screen == other.move_stays_on_screen
        &&& self.resize_stays_on_screen == other.resize_stays_on_screen
    }

    /// The defaults, read from nothing.
    pub fn for_test() -> (r: Settings)
        ensures
            !r.launches_at_login,
            r.panel_side == Side::Right,
            r.panel_reveal == PanelReveal::Unfold,
            r.preview_trigger == PreviewTrigger::Hover,
            r.move_enabled,
            r.resize_enabled,
            r.move_chord == Chord::empty().with_key(Key::Control).with_key(Key::Shift),
            r.resize_chord == Chord::empty().with_key(Key::Option).with_key(Key::Shift),
            r.resize_corner == ResizeCorner::BottomRight,
            r.ring_enabled,
            r.arrange_chord == Chord::empty().with_key(Key::Control).with_key(Key::Command),
            r.move_stays_on_screen,
            r.resize_stays_on_screen,
            r.ring_zones@ == Direction::default_ring(),
    {
        Settings {
            launches_at_login: false,
            panel_side: Side::Right,
            panel_reveal: PanelReveal::Unfold,
            preview_trigger: PreviewTrigger::Hover,
            move_enabled: true,
            resize_enabled: true,
            move_chord: default_move_chord(),
            resize_chord: default_resize_chord(),
            resize_corner: ResizeCorner::BottomRight,
            ring_enabled: true,
            arrange_chord: default_arrange_chord(),
            move_stays_on_screen: true,
            resize_stays_on_screen: true,
            ring_zones: Direction::default_zones(),
        }
    }

    /// The settings the defaults hold, each with its default where nothing was stored or
    /// what was stored does not read; whether Edged launches at login is macOS's to say.
    pub fn read(stored: &StoredSettings, launches_at_login: bool) -> (r: Settings)
        ensures
            r.read_from(*stored, launches_at_login),
    {
        let panel_side = match &stored.panel_side {
            Some(text) => match side_from_stored(text.as_str()) {
                Some(side) => side,
                None => Side::Right,
            },
            None => Side::Right,
        };
        let panel_reveal = match &stored.panel_reveal {
            Some(text) => match PanelReveal::from_stored(text.as_str()) {
                Some(chosen) => chosen,
                None => PanelReveal::Unfold,
            },
            None => PanelReveal::Unfold,
        };
        let preview_trigger = match &stored.preview_trigger {
            Some(text) => match PreviewTrigger::from_stored(text.as_str()) {
                Some(trigger) => trigger,
                None => PreviewTrigger::CommandKey,
            },
            None => PreviewTrigger::CommandKey,
        };
        let resize_corner = match &stored.resize_corner {
            Some(text) => match ResizeCorner::from_stored(text.as_str()) {
                Some(corner) => corner,
                None => ResizeCorner::BottomRight,
            },
            None => ResizeCorner::BottomRight,
        };
        let order = Direction::CLOCKWISE;
        let mut ring_zones = Direction::default_zones();
        let mut i: usize = 0;
        while i < 8
            invariant
                i <= 8,
                order@ == clockwise(),
                stored.ring_zones@.len() == 8,
                forall|j: int|
                    0 <= j < i ==> #[trigger] ring_zones@[j] == ring_read(
                        clockwise()[j],
                        text_of(stored.ring_zones@[j]),
                    ),
            decreases 8 - i,
        {
            ring_zones[i] = ring_zone_default(order[i], &stored.ring_zones[i]);
            i = i + 1;
        }
        Settings {
            launches_at_login,
            panel_side,
            panel_reveal,
            preview_trigger,
            move_enabled: switch_default(&stored.move_enabled),
            resize_enabled: switch_default(&stored.resize_enabled),
            move_chord: chord_default(&stored.move_chord, default_move_chord()),
            resize_chord: chord_default(&stored.resize_chord, default_resize_chord()),
            resize_corner,
            ring_enabled: switch_default(&stored.ring),
            arrange_chord: chord_default(&stored.arrange_chord, default_arrange_chord()),
            move_stays_on_screen: switch_default(&stored.move_stays_on_screen),
            resize_stays_on_screen: switch_default(&stored.resize_stays_on_screen),
            ring_zones,
        }
    }
}

/// Whether `stored` holds exactly the texts the setters write for `settings`.
pub open spec fn stored_for(stored: StoredSettings, settings: Settings) -> bool {
    &&& text_of(stored.panel_side) == Some(side_text(settings.panel_side))
    &&& text_of(stored.panel_reveal) == Some(settings.panel_reveal.stored_text())
    &&& text_of(stored.preview_trigger) == Some(settings.preview_trigger.stored_text())
    &&& text_of(stored.move_enabled) == Some(switch_text(settings.move_enabled))
    &&& text_of(stored.resize_enabled) == Some(switch_text(settings.resize_enabled))
    &&& text_of(stored.move_chord) == Some(settings.move_chord.stored_text())
    &&& text_of(stored.resize_chord) == Some(settings.resize_chord.stored_text())
    &&& text_of(stored.resize_corner) == Some(settings.resize_corner.stored_text())
    &&& text_of(stored.ring) == Some(switch_text(settings.ring_enabled))
    &&& text_of(stored.arrange_chord) == Some(settings.arrange_chord.stored_text())
    &&& text_of(stored.move_stays_on_screen) == Some(switch_text(settings.move_stays_on_screen))
    &&& text_of(stored.resize_stays_on_screen) == Some(
        switch_text(settings.resize_stays_on_screen),
    )
    &&& forall|i: int|
        0 <= i < 8 ==> #[trigger] text_of(stored.ring_zones@[i]) == Some(
            ring_text(settings.ring_zones@[i]),
        )
}

/// Every setting survives a relaunch: defaults that hold what the setters wrote for some
/// settings read back as exactly those settings.
pub proof fn lemma_settings_survive_storing(stored: StoredSettings, settings: Settings)
    requires
        stored_for(stored, settings),
    ensures
        settings.read_from(stored, settings.launches_at_login),
{
    reveal_strlit("left");
    reveal_strlit("right");
    reveal_strlit("unfold");
    reveal_strlit("slide");
    reveal_strlit("hover");
    reveal_strlit("command");
    reveal_strlit("bottom-right");
    reveal_strlit("nearest");
    reveal_strlit("on");
    reveal_strlit("off");
    reveal_strlit("none");
    lemma_chord_survives_storing(settings.move_chord);
    lemma_chord_survives_storing(settings.resize_chord);
    lemma_chord_survives_storing(settings.arrange_chord);
    assert("hover"@.len() == 5 && "command"@.len() == 7);
    assert("bottom-right"@.len() == 12 && "nearest"@.len() == 7);
    assert("hover"@ != "command"@);
    assert("bottom-right"@ != "nearest"@);
    assert("unfold"@.len() == 6 && "slide"@.len() == 5);
    assert("left"@.len() == 4 && "right"@.len() == 5);
    assert("on"@.len() == 2 && "off"@.len() == 3);
    assert("unfold"@ != "slide"@);
    assert("left"@ != "right"@);
    assert("on"@ != "off"@);
    assert forall|i: int| 0 <= i < 8 implies #[trigger] settings.ring_zones@[i] == ring_read(
        clockwise()[i],
        text_of(stored.ring_zones@[i]),
    ) by {
        assert(text_of(stored.ring_zones@[i]) == Some(ring_text(settings.ring_zones@[i])));
        match settings.ring_zones@[i] {
            Some(zone) => {
                lemma_zone_survives_storing(zone);
                reveal_strlit("fill");
                reveal_strlit("centred");
                reveal_strlit("left-half");
                reveal_strlit("right-half");
                reveal_strlit("top-half");
                reveal_strlit("bottom-half");
                reveal_strlit("top-left");
                reveal_strlit("top-right");
                reveal_strlit("bottom-left");
                reveal_strlit("bottom-right");
                assert(zone.stored_text() != "none"@) by {
                    if zone.stored_text().len() == 4 {
                        assert(zone.stored_text()[0] != "none"@[0]);
                    }
                }
            },
            None => {},
        }
    }
}

} // verus!
