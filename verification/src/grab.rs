//! A window held by the modifier keys and moved, resized or arranged by the pointer,
//! with no click: which of the three the keys held ask for, and what a change of the keys
//! does to a hold. Where the window goes is geometry, and the interface's.

use vstd::prelude::*;

use crate::desktop::Window;
use crate::settings::{ResizeCorner, Settings};
use crate::shortcut::{Chord, Modifiers};

verus! {

/// What a hold does to its window.
#[derive(Clone, Copy, Debug, PartialEq, Eq, Structural)]
pub enum Mode {
    Move,
    Resize,
    /// Puts the window in the zone the pointer's direction picks, once the keys are
    /// let go.
    Arrange,
}

/// The corner a resize drags.
#[derive(Clone, Copy, Debug, PartialEq, Eq, Structural)]
pub struct Corner {
    pub left: bool,
    pub top: bool,
}

impl Corner {
    /// The bottom-right corner, the one a size box has.
    pub fn bottom_right() -> (r: Corner)
        ensures
            !r.left && !r.top,
    {
        Corner { left: false, top: false }
    }

    /// The corner a resize drags, by the setting: the bottom-right one, or `nearest`,
    /// the corner nearest the pointer.
    pub fn for_setting(setting: ResizeCorner, nearest: Corner) -> (r: Corner)
        ensures
            setting == ResizeCorner::BottomRight ==> !r.left && !r.top,
            setting == ResizeCorner::Nearest ==> r == nearest,
    {
        match setting {
            ResizeCorner::BottomRight => Corner::bottom_right(),
            ResizeCorner::Nearest => nearest,
        }
    }
}

/// Whether a chord is exactly the keys held, and not the empty chord.
pub open spec fn chord_matches(chord: Chord, held: Modifiers) -> bool {
    chord != Chord::empty() && chord.control == held.control && chord.option == held.option
        && chord.shift == held.shift && chord.command == held.command
}

/// The mode the keys held ask for: each interaction answers its own chord only while
/// its own switch is on; when the chords of more than one match, move comes first, then
/// resize, then arrange.
pub open spec fn mode_asked(modifiers: Modifiers, settings: Settings) -> Option<Mode> {
    if settings.move_enabled && chord_matches(settings.move_chord, modifiers) {
        Some(Mode::Move)
    } else if settings.resize_enabled && chord_matches(settings.resize_chord, modifiers) {
        Some(Mode::Resize)
    } else if settings.ring_enabled && chord_matches(settings.arrange_chord, modifiers) {
        Some(Mode::Arrange)
    } else {
        None
    }
}

/// The mode the keys held ask for; see `mode_asked`.
pub fn mode_for(modifiers: Modifiers, settings: &Settings) -> (r: Option<Mode>)
    ensures
        r == mode_asked(modifiers, *settings),
{
    if settings.move_enabled && settings.move_chord.matches(modifiers) {
        Some(Mode::Move)
    } else if settings.resize_enabled && settings.resize_chord.matches(modifiers) {
        Some(Mode::Resize)
    } else if settings.ring_enabled && settings.arrange_chord.matches(modifiers) {
        Some(Mode::Arrange)
    } else {
        None
    }
}

/// Whether a window held in `mode` stops at the screen's edge: by the move's or the
/// resize's own setting; the ring puts a window in a zone of the screen and has none.
pub fn keeps_on_screen(settings: &Settings, mode: Mode) -> (r: bool)
    ensures
        r == match mode {
            Mode::Move => settings.move_stays_on_screen,
            Mode::Resize => settings.resize_stays_on_screen,
            Mode::Arrange => false,
        },
{
    match mode {
        Mode::Move => settings.move_stays_on_screen,
        Mode::Resize => settings.resize_stays_on_screen,
        Mode::Arrange => false,
    }
}

/// What a change of the keys does to the hold.
#[derive(Clone, Copy, Debug, PartialEq, Eq, Structural)]
pub enum KeysAction {
    /// Take hold of the window under the pointer, in this mode.
    TakeHold(Mode),
    /// Go on from where the window is now, in another mode.
    Switch(Mode),
    /// Let go of the window held.
    LetGo,
    /// Nothing changes.
    Nothing,
}

/// What a change of the keys does, given the mode of the hold if any and the mode the
/// keys ask for now.
pub open spec fn keys_outcome(holding: Option<Mode>, wanted: Option<Mode>) -> KeysAction {
    match (holding, wanted) {
        (None, Some(mode)) => KeysAction::TakeHold(mode),
        (Some(held), Some(mode)) => if held != mode {
            KeysAction::Switch(mode)
        } else {
            KeysAction::Nothing
        },
        (Some(_), None) => KeysAction::LetGo,
        (None, None) => KeysAction::Nothing,
    }
}

/// What the keys changing to `modifiers` does to a hold in mode `holding`, if any.
pub fn keys_changed(holding: Option<Mode>, modifiers: Modifiers, settings: &Settings) -> (r:
    KeysAction)
    ensures
        r == keys_outcome(holding, mode_asked(modifiers, *settings)),
{
    let wanted = mode_for(modifiers, settings);
    match (holding, wanted) {
        (None, Some(mode)) => KeysAction::TakeHold(mode),
        (Some(held), Some(mode)) => if held != mode {
            KeysAction::Switch(mode)
        } else {
            KeysAction::Nothing
        },
        (Some(_), None) => KeysAction::LetGo,
        (None, None) => KeysAction::Nothing,
    }
}

/// Whether a window can be held: a full-screen or minimized window cannot be moved.
pub fn can_hold(window: &Window) -> (r: bool)
    ensures
        r == (!window.is_fullscreen && !window.is_minimized),
{
    !window.is_fullscreen && !window.is_minimized
}

/// An empty chord, or a switch that is off, is an interaction that is off: the mode is
/// never asked for. Each switch turns off its own interaction only.
pub proof fn lemma_empty_chord_asks_nothing(modifiers: Modifiers, settings: Settings)
    ensures
        settings.move_chord == Chord::empty() || !settings.move_enabled ==> mode_asked(
            modifiers,
            settings,
        ) != Some(Mode::Move),
        settings.resize_chord == Chord::empty() || !settings.resize_enabled ==> mode_asked(
            modifiers,
            settings,
        ) != Some(Mode::Resize),
        settings.arrange_chord == Chord::empty() || !settings.ring_enabled ==> mode_asked(
            modifiers,
            settings,
        ) != Some(Mode::Arrange),
{
}

/// The ring has its own switch: with Move and Resize off, the arrange chord still holds
/// a window for the ring while the ring is on.
pub proof fn lemma_ring_has_its_own_switch(modifiers: Modifiers, settings: Settings)
    requires
        settings.ring_enabled,
        chord_matches(settings.arrange_chord, modifiers),
        !settings.move_enabled || !chord_matches(settings.move_chord, modifiers),
        !settings.resize_enabled || !chord_matches(settings.resize_chord, modifiers),
    ensures
        mode_asked(modifiers, settings) == Some(Mode::Arrange),
        keys_outcome(None, mode_asked(modifiers, settings)) == KeysAction::TakeHold(Mode::Arrange),
{
}

/// When the keys held match the chords of more than one interaction that is on, move
/// wins over resize, and both over arrange.
pub proof fn lemma_move_wins_a_tie(modifiers: Modifiers, settings: Settings)
    ensures
        settings.move_enabled && chord_matches(settings.move_chord, modifiers) ==> mode_asked(
            modifiers,
            settings,
        ) == Some(Mode::Move),
        !(settings.move_enabled && chord_matches(settings.move_chord, modifiers))
            && settings.resize_enabled && chord_matches(settings.resize_chord, modifiers)
            ==> mode_asked(modifiers, settings) == Some(Mode::Resize),
{
}

/// Letting go of every key lets go of any window held, and takes hold of none.
pub proof fn lemma_no_keys_hold_nothing(holding: Option<Mode>, settings: Settings)
    ensures
        keys_outcome(holding, mode_asked(Modifiers { option: false, shift: false, command: false, control: false }, settings)) == (
        match holding {
            Some(_) => KeysAction::LetGo,
            None => KeysAction::Nothing,
        }),
{
}

/// A mode is asked for only when its chord, which is not the empty one, is exactly the
/// keys held and its switch is on: keys that are no chord exactly, such as Shift alone
/// under Control-Shift, hold nothing.
pub proof fn lemma_mode_only_for_its_exact_chord(modifiers: Modifiers, settings: Settings)
    ensures
        mode_asked(modifiers, settings) == Some(Mode::Move) ==> settings.move_enabled
            && settings.move_chord != Chord::empty() && settings.move_chord.control
            == modifiers.control && settings.move_chord.option == modifiers.option
            && settings.move_chord.shift == modifiers.shift && settings.move_chord.command
            == modifiers.command,
        mode_asked(modifiers, settings) == Some(Mode::Resize) ==> settings.resize_enabled
            && settings.resize_chord != Chord::empty() && settings.resize_chord.control
            == modifiers.control && settings.resize_chord.option == modifiers.option
            && settings.resize_chord.shift == modifiers.shift && settings.resize_chord.command
            == modifiers.command,
        mode_asked(modifiers, settings) == Some(Mode::Arrange) ==> settings.ring_enabled
            && settings.arrange_chord != Chord::empty() && settings.arrange_chord.control
            == modifiers.control && settings.arrange_chord.option == modifiers.option
            && settings.arrange_chord.shift == modifiers.shift && settings.arrange_chord.command
            == modifiers.command,
        settings.move_enabled && settings.move_chord != Chord::empty()
            && settings.move_chord.control == modifiers.control && settings.move_chord.option
            == modifiers.option && settings.move_chord.shift == modifiers.shift
            && settings.move_chord.command == modifiers.command ==> mode_asked(modifiers, settings)
            == Some(Mode::Move),
{
}

} // verus!
