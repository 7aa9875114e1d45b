//! The settings window's sections: General, Panel, Previews, Move, Resize, Ring and
//! About, what each is called and says, which of them has a switch of its own, the
//! demonstration each opens on, and the choices a ring direction's menu offers.

use vstd::prelude::*;

use crate::grab::{mode_asked, Mode};
use crate::settings::{
    switch_text, DefaultWrite, Settings, MOVE_ENABLED_KEY, RESIZE_ENABLED_KEY, RING_KEY,
};
use crate::shortcut::{Chord, Modifiers};
use crate::text::same_text;
use crate::zone::{Direction, Zone};

verus! {

/// A section of the settings window.
#[derive(Clone, Copy, Debug, PartialEq, Eq, Structural)]
pub enum Section {
    General,
    Panel,
    Previews,
    Move,
    Resize,
    Ring,
    About,
}

/// What the desktop demonstration beside a section shows.
#[derive(Clone, Copy, Debug, PartialEq, Eq, Structural)]
pub enum Demo {
    Panel,
    Preview,
    Move,
    Resize,
    /// The ring, moving towards this direction.
    Ring(Direction),
}

impl Section {
    /// The sections, in the order the window lists them.
    pub const ALL: [Section; 7] = [
        Section::General,
        Section::Panel,
        Section::Previews,
        Section::Move,
        Section::Resize,
        Section::Ring,
        Section::About,
    ];

    /// The section's identifier.
    pub open spec fn id_text(self) -> Seq<char> {
        match self {
            Section::General => "general"@,
            Section::Panel => "panel"@,
            Section::Previews => "previews"@,
            Section::Move => "move"@,
            Section::Resize => "resize"@,
            Section::Ring => "ring"@,
            Section::About => "about"@,
        }
    }

    /// The section's identifier.
    pub fn id(self) -> (r: &'static str)
        ensures
            r@ == self.id_text(),
    {
        match self {
            Section::General => "general",
            Section::Panel => "panel",
            Section::Previews => "previews",
            Section::Move => "move",
            Section::Resize => "resize",
            Section::Ring => "ring",
            Section::About => "about",
        }
    }

    /// The section an identifier names; General for one no section has.
    pub fn from_id(id: &str) -> (r: Section)
        ensures
            r == (if id@ == "panel"@ {
                Section::Panel
            } else if id@ == "previews"@ {
                Section::Previews
            } else if id@ == "move"@ {
                Section::Move
            } else if id@ == "resize"@ {
                Section::Resize
            } else if id@ == "ring"@ {
                Section::Ring
            } else if id@ == "about"@ {
                Section::About
            } else {
                Section::General
            }),
    {
        if same_text(id, "panel") {
            Section::Panel
        } else if same_text(id, "previews") {
            Section::Previews
        } else if same_text(id, "move") {
            Section::Move
        } else if same_text(id, "resize") {
            Section::Resize
        } else if same_text(id, "ring") {
            Section::Ring
        } else if same_text(id, "about") {
            Section::About
        } else {
            Section::General
        }
    }

    /// The section's title, in the list and at the head of its page.
    pub open spec fn title_text(self) -> Seq<char> {
        match self {
            Section::General => "General"@,
            Section::Panel => "Panel"@,
            Section::Previews => "Previews"@,
            Section::Move => "Move"@,
            Section::Resize => "Resize"@,
            Section::Ring => "Ring"@,
            Section::About => "About"@,
        }
    }

    /// The section's title.
    pub fn title(self) -> (r: &'static str)
        ensures
            r@ == self.title_text(),
    {
        match self {
            Section::General => "General",
            Section::Panel => "Panel",
            Section::Previews => "Previews",
            Section::Move => "Move",
            Section::Resize => "Resize",
            Section::Ring => "Ring",
            Section::About => "About",
        }
    }

    /// The line under the section's title.
    pub open spec fn description_text(self) -> Seq<char> {
        match self {
            Section::General => "Startup and access."@,
            Section::Panel => "Choose where the panel appears and how it opens."@,
            Section::Previews => "Choose when to show a window preview."@,
            Section::Move => "Hold a shortcut and move the pointer. No click needed."@,
            Section::Resize => "Hold a shortcut and move the pointer. No click needed."@,
            Section::Ring => "Hold the shortcut, move in a direction, then release."@,
            Section::About => "Version and updates."@,
        }
    }

    /// The line under the section's title.
    pub fn description(self) -> (r: &'static str)
        ensures
            r@ == self.description_text(),
    {
        match self {
            Section::General => "Startup and access.",
            Section::Panel => "Choose where the panel appears and how it opens.",
            Section::Previews => "Choose when to show a window preview.",
            Section::Move => "Hold a shortcut and move the pointer. No click needed.",
            Section::Resize => "Hold a shortcut and move the pointer. No click needed.",
            Section::Ring => "Hold the shortcut, move in a direction, then release.",
            Section::About => "Version and updates.",
        }
    }

    /// Whether the section's interaction is on, for the three that have a switch of
    /// their own: Move, Resize and Ring; `None` for the others.
    pub fn enabled(self, settings: &Settings) -> (r: Option<bool>)
        ensures
            r == match self {
                Section::Move => Some(settings.move_enabled),
                Section::Resize => Some(settings.resize_enabled),
                Section::Ring => Some(settings.ring_enabled),
                _ => None,
            },
    {
        match self {
            Section::Move => Some(settings.move_enabled),
            Section::Resize => Some(settings.resize_enabled),
            Section::Ring => Some(settings.ring_enabled),
            _ => None,
        }
    }

    /// Turns the section's own switch on or off; the write to make, as the setter gives
    /// it. A section without a switch changes nothing.
    pub fn set_enabled(self, settings: &mut Settings, on: bool) -> (r: Option<DefaultWrite>)
        ensures
            match self {
                Section::Move => {
                    &&& *final(settings) == (Settings { move_enabled: on, ..*old(settings) })
                    &&& old(settings).move_enabled == on ==> r is None
                    &&& old(settings).move_enabled != on ==> (r matches Some(w) && w.key@
                        == MOVE_ENABLED_KEY@ && w.value@ == switch_text(on))
                },
                Section::Resize => {
                    &&& *final(settings) == (Settings { resize_enabled: on, ..*old(settings) })
                    &&& old(settings).resize_enabled == on ==> r is None
                    &&& old(settings).resize_enabled != on ==> (r matches Some(w) && w.key@
                        == RESIZE_ENABLED_KEY@ && w.value@ == switch_text(on))
                },
                Section::Ring => {
                    &&& *final(settings) == (Settings { ring_enabled: on, ..*old(settings) })
                    &&& old(settings).ring_enabled == on ==> r is None
                    &&& old(settings).ring_enabled != on ==> (r matches Some(w) && w.key@
                        == RING_KEY@ && w.value@ == switch_text(on))
                },
                _ => *final(settings) == *old(settings) && r is None,
            },
    {
        match self {
            Section::Move => settings.set_move_enabled(on),
            Section::Resize => settings.set_resize_enabled(on),
            Section::Ring => settings.set_ring_enabled(on),
            _ => None,
        }
    }

    /// The demonstration a section opens on: the ring moving up for the Ring section,
    /// the panel for those with nothing of their own to show.
    pub fn demo(self) -> (r: Demo)
        ensures
            r == match self {
                Section::Previews => Demo::Preview,
                Section::Move => Demo::Move,
                Section::Resize => Demo::Resize,
                Section::Ring => Demo::Ring(Direction::Up),
                _ => Demo::Panel,
            },
    {
        match self {
            Section::Previews => Demo::Preview,
            Section::Move => Demo::Move,
            Section::Resize => Demo::Resize,
            Section::Ring => Demo::Ring(Direction::Up),
            _ => Demo::Panel,
        }
    }

    /// Whether the section's page shows the desktop demonstration beside its options:
    /// all but General and About, which have nothing on the desktop to show.
    pub fn shows_demo(self) -> (r: bool)
        ensures
            r == (self != Section::General && self != Section::About),
    {
        match self {
            Section::General | Section::About => false,
            _ => true,
        }
    }
}

/// The zones a ring direction's menu offers, in order: every zone, then nothing.
pub open spec fn menu_zones() -> Seq<Option<Zone>> {
    seq![
        Some(Zone::Fill),
        Some(Zone::Centred),
        Some(Zone::LeftHalf),
        Some(Zone::RightHalf),
        Some(Zone::TopHalf),
        Some(Zone::BottomHalf),
        Some(Zone::TopLeft),
        Some(Zone::TopRight),
        Some(Zone::BottomLeft),
        Some(Zone::BottomRight),
        None,
    ]
}

/// What a choice of a ring direction's menu reads: the zone's name, or "Do nothing".
pub open spec fn choice_label(zone: Option<Zone>) -> Seq<char> {
    match zone {
        Some(zone) => zone.name_text(),
        None => "Do nothing"@,
    }
}

/// The choices a ring direction's menu offers, each with its label and whether it is the
/// zone the direction picks now, `current`.
pub fn direction_choices(current: Option<Zone>) -> (r: Vec<(Option<Zone>, &'static str, bool)>)
    ensures
        r@.len() == menu_zones().len(),
        forall|k: int|
            0 <= k < r@.len() ==> {
                let choice = #[trigger] r@[k];
                &&& choice.0 == menu_zones()[k]
                &&& choice.1@ == choice_label(menu_zones()[k])
                &&& choice.2 == (menu_zones()[k] == current)
            },
{
    let candidates: [Option<Zone>; 11] = [
        Some(Zone::Fill),
        Some(Zone::Centred),
        Some(Zone::LeftHalf),
        Some(Zone::RightHalf),
        Some(Zone::TopHalf),
        Some(Zone::BottomHalf),
        Some(Zone::TopLeft),
        Some(Zone::TopRight),
        Some(Zone::BottomLeft),
        Some(Zone::BottomRight),
        None,
    ];
    assert(candidates@ =~= menu_zones());
    let mut choices: Vec<(Option<Zone>, &'static str, bool)> = Vec::new();
    let mut k: usize = 0;
    while k < 11
        invariant
            k <= 11,
            candidates@ == menu_zones(),
            choices@.len() == k,
            forall|m: int|
                0 <= m < k ==> {
                    let choice = #[trigger] choices@[m];
                    &&& choice.0 == menu_zones()[m]
                    &&& choice.1@ == choice_label(menu_zones()[m])
                    &&& choice.2 == (menu_zones()[m] == current)
                },
        decreases 11 - k,
    {
        let candidate = candidates[k];
        let label = match candidate {
            Some(zone) => zone.name(),
            None => "Do nothing",
        };
        choices.push((candidate, label, candidate == current));
        k = k + 1;
    }
    choices
}

/// Whether the Resize page warns that its shortcut is the Move shortcut: both on, and
/// the same keys, which are not none.
pub open spec fn chords_clash(settings: Settings) -> bool {
    settings.move_enabled && settings.resize_enabled && settings.move_chord != Chord::empty()
        && settings.move_chord == settings.resize_chord
}

/// The warning the Resize page shows when its shortcut is the Move shortcut.
pub const CLASH_WARNING: &'static str = "These shortcuts match. Move takes priority; resize will not run.";

/// Whether the Resize page warns of a clash; see `chords_clash`.
pub fn resize_clashes(settings: &Settings) -> (r: bool)
    ensures
        r == chords_clash(*settings),
{
    settings.move_enabled && settings.resize_enabled && !settings.move_chord.is_empty()
        && settings.move_chord == settings.resize_chord
}

/// What the warning says holds: while the two shortcuts clash, resizing never runs.
pub proof fn lemma_clash_means_no_resize(modifiers: Modifiers, settings: Settings)
    requires
        chords_clash(settings),
    ensures
        mode_asked(modifiers, settings) != Some(Mode::Resize),
{
}

} // verus!
