//! What each line of the panel says and how it looks: a window's row, a windowless
//! application's row, and the mark at the head of a Space's windows.

use vstd::prelude::*;

use crate::desktop::{AppEntry, Window};
use crate::space::{Space, SpaceKind};
use crate::text::{decimal, decimal_text};

verus! {

/// How a row looks, apart from its icon and badge.
pub struct RowLook {
    /// The text of the row.
    pub label: String,
    /// Whether the row is marked as the window typed into.
    pub focused: bool,
    /// Whether the row is faded: a minimized window, or a hidden application's.
    pub dimmed: bool,
    /// Whether resting the pointer on the row shows a picture of its window.
    pub previews: bool,
}

/// Whether a window is the one its application types into, with that application
/// active.
pub open spec fn is_focused(entry: AppEntry, window: Window) -> bool {
    entry.application.is_active && entry.focused == Some(window.id)
}

/// The row of one window of `entry`: its title, or the application's name for a
/// window that has none. A picture shows on hover, except for the window in front on
/// the Space its screen is showing, which is in plain sight.
pub fn window_row(entry: &AppEntry, window: &Window, on_current_space: bool) -> (r: RowLook)
    ensures
        r.label@ == if window.title@.len() == 0 {
            entry.application.name@
        } else {
            window.title@
        },
        r.focused == is_focused(*entry, *window),
        r.dimmed == (window.is_minimized || entry.application.is_hidden),
        r.previews == !(is_focused(*entry, *window) && on_current_space && !window.is_minimized),
{
    let focused = entry.application.is_active && match entry.focused {
        Some(id) => id == window.id,
        None => false,
    };
    let in_sight = focused && on_current_space && !window.is_minimized;
    let label = if window.title.unicode_len() == 0 {
        entry.application.name.clone()
    } else {
        window.title.clone()
    };
    RowLook {
        label,
        focused,
        dimmed: window.is_minimized || entry.application.is_hidden,
        previews: !in_sight,
    }
}

/// The row of an application with no windows: its name, faded while it is hidden;
/// choosing it activates the application, and it shows no picture.
pub fn application_row(entry: &AppEntry) -> (r: RowLook)
    ensures
        r.label@ == entry.application.name@,
        !r.focused,
        r.dimmed == entry.application.is_hidden,
        !r.previews,
{
    RowLook {
        label: entry.application.name.clone(),
        focused: false,
        dimmed: entry.application.is_hidden,
        previews: false,
    }
}

/// The mark at the head of a Space's windows: "F" for a full-screen Space, a desktop's
/// number as Mission Control counts, from one, and a dot for a desktop with no number.
pub open spec fn mark_text(space: Space) -> Seq<char> {
    match (space.kind, space.index) {
        (SpaceKind::Fullscreen, _) => "F"@,
        (_, Some(index)) => decimal_text((index + 1) as nat),
        (_, None) => "\u{b7}"@,
    }
}

/// The mark at the head of a Space's windows; see `mark_text`.
pub fn space_mark(space: &Space) -> (r: String)
    requires
        space.index != Some(usize::MAX),
    ensures
        r@ == mark_text(*space),
{
    match (space.kind, space.index) {
        (SpaceKind::Fullscreen, _) => String::from_str("F"),
        (_, Some(index)) => decimal(index as u64 + 1),
        (_, None) => String::from_str("\u{b7}"),
    }
}

/// Only the active application's window is marked as the one typed into: a row of an
/// application in the background is never marked and always offers a preview, and the
/// active application's row is marked for the window it types into and no other.
pub proof fn lemma_only_the_active_window_is_marked(entry: AppEntry, window: Window, on_current_space: bool)
    ensures
        is_focused(entry, window) ==> entry.application.is_active,
        is_focused(entry, window) ==> entry.focused == Some(window.id),
        entry.application.is_active && entry.focused == Some(window.id) ==> is_focused(
            entry,
            window,
        ),
        !entry.application.is_active ==> !(is_focused(entry, window) && on_current_space
            && !window.is_minimized),
{
}

} // verus!
