//! Mission Control's Spaces, per display, and the changes macOS reports on the desktop.

use vstd::prelude::*;

use crate::text::same_text;

verus! {

/// A Space's system-wide identifier.
pub type SpaceId = u64;

/// A window's window-server identifier.
pub type WindowId = u32;

/// What a Space holds.
#[derive(Clone, Copy, Debug, PartialEq, Eq, Structural)]
pub enum SpaceKind {
    /// A desktop the user can put windows on.
    Desktop,
    /// A Space owned by one full-screen window.
    Fullscreen,
}

/// One Space on one display.
pub struct Space {
    pub id: SpaceId,
    /// The display this Space belongs to, by its uuid.
    pub display_uuid: String,
    /// Its place in Mission Control, counting desktops only; a full-screen Space has
    /// none.
    pub index: Option<usize>,
    pub kind: SpaceKind,
}

/// Mission Control's "Switch to Desktop 1" shortcut id; the next fifteen follow it.
pub const FIRST_DESKTOP_HOTKEY: i32 = 118;
/// How many desktops Mission Control has a shortcut for.
pub const DESKTOP_HOTKEYS: usize = 16;

/// The kind a Space's "type" number gives: 0 for a desktop; 4, or any other, for the
/// Space a full-screen window owns.
pub open spec fn kind_of_type(number: Option<i64>) -> SpaceKind {
    if number == Some(0i64) {
        SpaceKind::Desktop
    } else {
        SpaceKind::Fullscreen
    }
}

/// How many of the first `count` type numbers are a desktop's.
pub open spec fn desktops_among(types: Seq<Option<i64>>, count: int) -> nat
    decreases count,
{
    if count <= 0 {
        0
    } else {
        desktops_among(types, count - 1) + if kind_of_type(types[count - 1]) == SpaceKind::Desktop {
            1nat
        } else {
            0nat
        }
    }
}

impl Space {
    /// Whether this Space is the one its display shows, given the Space the display
    /// reports it shows now.
    pub fn is_current(&self, showing: SpaceId) -> (r: bool)
        ensures
            r == (self.id == showing),
    {
        self.id == showing
    }

    /// The Mission Control shortcut id that would switch to this Space: a desktop among
    /// the first sixteen has one.
    pub open spec fn hotkey_id(self) -> Option<i32> {
        match (self.kind, self.index) {
            (SpaceKind::Desktop, Some(index)) => if index < DESKTOP_HOTKEYS {
                Some((FIRST_DESKTOP_HOTKEY as int + index as int) as i32)
            } else {
                None
            },
            _ => None,
        }
    }

    /// The Mission Control shortcut id that would switch to this Space, whether or not
    /// a key is bound to it.
    pub fn hotkey(&self) -> (r: Option<i32>)
        ensures
            r == self.hotkey_id(),
    {
        match (self.kind, self.index) {
            (SpaceKind::Desktop, Some(index)) => if index < DESKTOP_HOTKEYS {
                Some(FIRST_DESKTOP_HOTKEY + index as i32)
            } else {
                None
            },
            _ => None,
        }
    }

    /// The shortcut that switches to this Space, given whether the window server has a
    /// key bound to its id: `None` when it has none.
    pub fn shortcut(&self, bound: bool) -> (r: Option<i32>)
        ensures
            r == (if bound {
                self.hotkey_id()
            } else {
                None
            }),
    {
        if bound {
            self.hotkey()
        } else {
            None
        }
    }

    /// The shortcut to make sure is enabled before pressing it, given whether a key is
    /// bound to this Space's id; `None` means the Space has no shortcut.
    pub fn enable_shortcut(&self, bound: bool) -> (r: Option<i32>)
        ensures
            r == (if bound {
                self.hotkey_id()
            } else {
                None
            }),
    {
        self.shortcut(bound)
    }

    /// The key code and modifier flags to press for this Space, given the binding the
    /// window server reports for its id: `None` when there is no shortcut to press.
    pub fn press_shortcut(&self, binding: Option<(u16, u32)>) -> (r: Option<(u16, u32)>)
        ensures
            r == (if self.hotkey_id() is Some {
                binding
            } else {
                None
            }),
    {
        match self.hotkey() {
            Some(_) => binding,
            None => None,
        }
    }
}

/// What a click on a Space's heading comes to, once the Space is looked up afresh.
#[derive(Clone, Copy, Debug, PartialEq, Eq, Structural)]
pub enum SwitchAction {
    /// The Space is gone.
    Gone,
    /// Its display shows it already.
    Shown,
    /// No shortcut switches to it: a full-screen Space, a desktop past the sixteenth, or
    /// one whose shortcut is bound to no key.
    Unreachable,
    /// Enable this Mission Control shortcut, then press it a moment later.
    Press(i32),
}

/// The Space with this id, the first listed.
pub fn space_with_id(spaces: &Vec<Space>, id: SpaceId) -> (r: Option<&Space>)
    ensures
        match r {
            Some(space) => exists|k: int|
                0 <= k < spaces@.len() && spaces@[k] == *space && space.id == id && forall|m: int|
                    0 <= m < k ==> (#[trigger] spaces@[m]).id != id,
            None => forall|m: int| 0 <= m < spaces@.len() ==> (#[trigger] spaces@[m]).id != id,
        },
{
    let mut k: usize = 0;
    while k < spaces.len()
        invariant
            k <= spaces@.len(),
            forall|m: int| 0 <= m < k ==> (#[trigger] spaces@[m]).id != id,
        decreases spaces@.len() - k,
    {
        if spaces[k].id == id {
            return Some(&spaces[k]);
        }
        k = k + 1;
    }
    None
}

/// What switching to a Space does, given the Space as looked up afresh, the Space its
/// display shows now, and whether a key is bound to its shortcut.
pub fn switch_action(target: Option<&Space>, showing: SpaceId, bound: bool) -> (r: SwitchAction)
    ensures
        r == match target {
            None => SwitchAction::Gone,
            Some(space) => if space.id == showing {
                SwitchAction::Shown
            } else if bound {
                match space.hotkey_id() {
                    Some(hotkey) => SwitchAction::Press(hotkey),
                    None => SwitchAction::Unreachable,
                }
            } else {
                SwitchAction::Unreachable
            },
        },
{
    let space = match target {
        Some(space) => space,
        None => return SwitchAction::Gone,
    };
    if space.is_current(showing) {
        return SwitchAction::Shown;
    }
    match space.enable_shortcut(bound) {
        Some(hotkey) => SwitchAction::Press(hotkey),
        None => SwitchAction::Unreachable,
    }
}

/// The Spaces of one display, from its uuid and each Space's id and "type" number in
/// Mission Control order. Desktops are numbered across displays: `desktops` were
/// numbered on the displays before; the count after this one comes back too.
pub fn spaces_of_display(uuid: &String, entries: &Vec<(SpaceId, Option<i64>)>, desktops: usize) -> (r: (
    Vec<Space>,
    usize,
))
    requires
        desktops + entries@.len() <= usize::MAX,
    ensures
        r.0@.len() == entries@.len(),
        r.1 == desktops + desktops_among(entries@.map_values(|e: (SpaceId, Option<i64>)| e.1), entries@.len() as int),
        forall|k: int|
            0 <= k < entries@.len() ==> {
                let space = #[trigger] r.0@[k];
                let types = entries@.map_values(|e: (SpaceId, Option<i64>)| e.1);
                &&& space.id == entries@[k].0
                &&& space.display_uuid@ == uuid@
                &&& space.kind == kind_of_type(entries@[k].1)
                &&& space.index == if space.kind == SpaceKind::Desktop {
                    Some((desktops + desktops_among(types, k)) as usize)
                } else {
                    None
                }
            },
{
    let ghost types = entries@.map_values(|e: (SpaceId, Option<i64>)| e.1);
    let mut spaces: Vec<Space> = Vec::new();
    let mut count: usize = desktops;
    let mut k: usize = 0;
    while k < entries.len()
        invariant
            k <= entries@.len(),
            desktops + entries@.len() <= usize::MAX,
            types == entries@.map_values(|e: (SpaceId, Option<i64>)| e.1),
            spaces@.len() == k,
            count == desktops + desktops_among(types, k as int),
            desktops_among(types, k as int) <= k,
            forall|j: int|
                0 <= j < k ==> {
                    let space = #[trigger] spaces@[j];
                    &&& space.id == entries@[j].0
                    &&& space.display_uuid@ == uuid@
                    &&& space.kind == kind_of_type(entries@[j].1)
                    &&& space.index == if space.kind == SpaceKind::Desktop {
                        Some((desktops + desktops_among(types, j)) as usize)
                    } else {
                        None
                    }
                },
        decreases entries@.len() - k,
    {
        let (id, number) = entries[k];
        let kind = match number {
            Some(0) => SpaceKind::Desktop,
            _ => SpaceKind::Fullscreen,
        };
        assert(types[k as int] == number);
        let index = if kind == SpaceKind::Desktop {
            count = count + 1;
            Some(count - 1)
        } else {
            None
        };
        spaces.push(Space { id, display_uuid: uuid.clone(), index, kind });
        k = k + 1;
    }
    (spaces, count)
}

/// What changed on the desktop, as finely as the source reports it.
#[derive(Clone, Copy, Debug, PartialEq, Eq, Structural)]
pub enum Change {
    /// An application launched, quit, became active, or was hidden or shown.
    Applications,
    /// A window of this process opened or closed: its window list is stale.
    Windows(i32),
    /// One window of this process was renamed, minimized, restored, moved or resized.
    Window(i32, WindowId),
    /// One window of this process was destroyed.
    Closed(i32, WindowId),
    /// Keyboard focus moved to another window of this process.
    Focus(i32),
    /// A display started showing a different Space.
    Spaces,
    /// A display was added, removed or rearranged.
    Screens,
}

/// The change an accessibility notification of process `pid` stands for; `window` is
/// the window id behind the element it came from, where it has one.
pub open spec fn change_named(pid: i32, name: Seq<char>, window: Option<WindowId>) -> Change {
    if name == "AXFocusedWindowChanged"@ || name == "AXMainWindowChanged"@ {
        Change::Focus(pid)
    } else if name == "AXApplicationActivated"@ || name == "AXApplicationDeactivated"@
        || name == "AXApplicationHidden"@ || name == "AXApplicationShown"@ {
        Change::Applications
    } else if name == "AXTitleChanged"@ || name == "AXWindowMiniaturized"@
        || name == "AXWindowDeminiaturized"@ || name == "AXWindowMoved"@
        || name == "AXWindowResized"@ {
        match window {
            Some(id) => Change::Window(pid, id),
            None => Change::Windows(pid),
        }
    } else {
        Change::Windows(pid)
    }
}

/// The change an accessibility notification reports.
pub fn change_for(pid: i32, name: &str, window: Option<WindowId>) -> (r: Change)
    ensures
        r == change_named(pid, name@, window),
{
    if same_text(name, "AXFocusedWindowChanged") || same_text(name, "AXMainWindowChanged") {
        Change::Focus(pid)
    } else if same_text(name, "AXApplicationActivated") || same_text(name, "AXApplicationDeactivated")
        || same_text(name, "AXApplicationHidden") || same_text(name, "AXApplicationShown") {
        Change::Applications
    } else if same_text(name, "AXTitleChanged") || same_text(name, "AXWindowMiniaturized")
        || same_text(name, "AXWindowDeminiaturized") || same_text(name, "AXWindowMoved")
        || same_text(name, "AXWindowResized") {
        match window {
            Some(id) => Change::Window(pid, id),
            None => Change::Windows(pid),
        }
    } else {
        Change::Windows(pid)
    }
}

} // verus!
