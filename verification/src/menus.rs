//! What a right-click offers: each menu is described first, as entries and the choice
//! each stands for, and shown by the app; the choice made comes back here to be told
//! apart. The menu itself decides nothing.

use vstd::prelude::*;

use crate::desktop::{Application, Desktop, Window};
use crate::space::{Space, SpaceId, SpaceKind};
use crate::text::{decimal, decimal_text, same_text};

verus! {

/// What choosing an entry does.
#[derive(Clone, Copy, Debug, PartialEq, Eq, Structural)]
pub enum Choice {
    /// Close the window.
    Close,
    /// Take the window out of full screen.
    LeaveFullScreen,
    /// Bring the minimized window back.
    Restore,
    /// Minimize the window.
    Minimize,
    /// Quit the window's application.
    Quit,
    /// Move the window to this desktop.
    MoveTo(SpaceId),
    /// Set whether Edged launches at login to this.
    LaunchAtLogin(bool),
    /// Read the whole desktop again.
    Refresh,
    /// Ask for screen recording access, which window previews need.
    ShowPreviews,
    /// Open the settings window.
    OpenSettings,
    /// Quit Edged.
    QuitEdged,
}

/// One entry of a menu.
pub enum MenuEntry {
    /// A title and what choosing it does.
    Item(String, Choice),
    /// A title with a check mark when set, and what choosing it does.
    Checked(String, bool, Choice),
    /// A line between groups of entries.
    Separator,
}

/// What an entry shows and does: its title, its check mark if it has one, and its
/// choice; a separator has no title and no choice.
pub open spec fn entry_view(entry: MenuEntry) -> (Seq<char>, Option<bool>, Option<Choice>) {
    match entry {
        MenuEntry::Item(title, choice) => (title@, None, Some(choice)),
        MenuEntry::Checked(title, checked, choice) => (title@, Some(checked), Some(choice)),
        MenuEntry::Separator => (Seq::empty(), None, None),
    }
}

/// What some entries show and do.
pub open spec fn entries_view(entries: Seq<MenuEntry>) -> Seq<(Seq<char>, Option<bool>, Option<Choice>)> {
    entries.map_values(|entry: MenuEntry| entry_view(entry))
}

/// An item with this title and choice.
pub open spec fn item(title: Seq<char>, choice: Choice) -> (Seq<char>, Option<bool>, Option<Choice>) {
    (title, None, Some(choice))
}

/// A separator.
pub open spec fn separator() -> (Seq<char>, Option<bool>, Option<Choice>) {
    (Seq::empty(), None, None)
}

/// The title of the item that quits an application.
pub open spec fn quit_title(name: Seq<char>) -> Seq<char> {
    "Quit "@ + name
}

/// The title of the item that moves a window to a desktop: its number as Mission
/// Control counts, from one.
pub open spec fn move_title(index: Option<usize>) -> Seq<char> {
    match index {
        Some(index) => "Move to Desktop "@ + decimal_text((index + 1) as nat),
        None => "Move to Desktop"@,
    }
}

/// Whether a Space belongs to the display `uuid`.
pub open spec fn on_display(uuid: Seq<char>) -> spec_fn(Space) -> bool {
    |space: Space| space.display_uuid@ == uuid
}

/// Whether a Space is a desktop, not a full-screen window's.
pub open spec fn a_desktop() -> spec_fn(Space) -> bool {
    |space: Space| space.kind == SpaceKind::Desktop
}

/// Whether a Space is one the window is not on.
pub open spec fn not_holding(window: Window) -> spec_fn(Space) -> bool {
    |space: Space| !window.spaces@.contains(space.id)
}

/// The desktops of the display `screen` a window could be moved to: every one it is
/// not on already; none for a full-screen window, or one whose display is not known.
pub open spec fn destinations(spaces: Seq<Space>, window: Window, screen: Option<Seq<char>>) -> Seq<
    Space,
> {
    match screen {
        Some(uuid) => if window.is_fullscreen {
            Seq::empty()
        } else {
            spaces.filter(on_display(uuid)).filter(a_desktop()).filter(not_holding(window))
        },
        None => Seq::empty(),
    }
}

/// A window is offered a move only to a desktop of its own display that it is not on,
/// and a full-screen window, or one whose display is not known, none.
pub proof fn lemma_moves_go_elsewhere(spaces: Seq<Space>, window: Window, screen: Option<Seq<char>>)
    ensures
        (window.is_fullscreen || screen is None) ==> destinations(spaces, window, screen).len() == 0,
        forall|k: int|
            0 <= k < destinations(spaces, window, screen).len() ==> {
                let space = #[trigger] destinations(spaces, window, screen)[k];
                &&& screen == Some(space.display_uuid@)
                &&& space.kind == SpaceKind::Desktop
                &&& !window.spaces@.contains(space.id)
                &&& spaces.contains(space)
            },
{
    if let Some(uuid) = screen {
        if !window.is_fullscreen {
            let a = spaces.filter(on_display(uuid));
            let b = a.filter(a_desktop());
            let c = b.filter(not_holding(window));
            assert forall|k: int| 0 <= k < c.len() implies {
                let space = #[trigger] c[k];
                &&& screen == Some(space.display_uuid@)
                &&& space.kind == SpaceKind::Desktop
                &&& !window.spaces@.contains(space.id)
                &&& spaces.contains(space)
            } by {
                b.lemma_filter_pred(not_holding(window), k);
                assert(c.contains(c[k]));
                b.lemma_filter_contains_rev(not_holding(window), c[k]);
                let x = choose|x: int| 0 <= x < b.len() && b[x] == c[k];
                a.lemma_filter_pred(a_desktop(), x);
                a.lemma_filter_contains_rev(a_desktop(), c[k]);
                let y = choose|y: int| 0 <= y < a.len() && a[y] == c[k];
                spaces.lemma_filter_pred(on_display(uuid), y);
                spaces.lemma_filter_contains_rev(on_display(uuid), c[k]);
            }
        }
    }
}

/// The menu of a window: close; leave full screen, restore or minimize, whichever
/// applies; quit its application; and a move to each desktop it could go to.
pub open spec fn window_plan(window: Window, name: Seq<char>, moves: Seq<Space>) -> Seq<
    (Seq<char>, Option<bool>, Option<Choice>),
> {
    seq![
        item("Close"@, Choice::Close),
        if window.is_fullscreen {
            item("Leave Full Screen"@, Choice::LeaveFullScreen)
        } else if window.is_minimized {
            item("Restore"@, Choice::Restore)
        } else {
            item("Minimize"@, Choice::Minimize)
        },
        separator(),
        item(quit_title(name), Choice::Quit),
    ] + (if moves.len() > 0 {
        seq![separator()]
    } else {
        Seq::empty()
    }) + moves.map_values(|space: Space| item(move_title(space.index), Choice::MoveTo(space.id)))
}

fn quit_item(application: &Application) -> (r: MenuEntry)
    ensures
        entry_view(r) == item(quit_title(application.name@), Choice::Quit),
{
    let mut title = String::from_str("Quit ");
    title.append(application.name.as_str());
    MenuEntry::Item(title, Choice::Quit)
}

fn move_item(space: &Space) -> (r: MenuEntry)
    requires
        space.index != Some(usize::MAX),
    ensures
        entry_view(r) == item(move_title(space.index), Choice::MoveTo(space.id)),
{
    let title = match space.index {
        Some(index) => {
            let mut title = String::from_str("Move to Desktop ");
            let number = decimal(index as u64 + 1);
            title.append(number.as_str());
            title
        },
        None => String::from_str("Move to Desktop"),
    };
    MenuEntry::Item(title, Choice::MoveTo(space.id))
}

/// Whether a window is on a Space.
fn is_on(window: &Window, space: SpaceId) -> (r: bool)
    ensures
        r == window.spaces@.contains(space),
{
    let mut k: usize = 0;
    while k < window.spaces.len()
        invariant
            k <= window.spaces@.len(),
            forall|m: int| 0 <= m < k ==> window.spaces@[m] != space,
        decreases window.spaces@.len() - k,
    {
        if window.spaces[k] == space {
            assert(window.spaces@[k as int] == space);
            return true;
        }
        k = k + 1;
    }
    false
}

/// The menu of a window of `application`, on the display `screen` where it is known.
pub fn window_menu(desktop: &Desktop, window: &Window, application: &Application, screen: Option<
    &str,
>) -> (r: Vec<MenuEntry>)
    requires
        forall|k: int|
            0 <= k < desktop.spaces@.len() ==> (#[trigger] desktop.spaces@[k]).index != Some(
                usize::MAX,
            ),
    ensures
        entries_view(r@) == window_plan(
            *window,
            application.name@,
            destinations(
                desktop.spaces@,
                *window,
                match screen {
                    Some(uuid) => Some(uuid@),
                    None => None,
                },
            ),
        ),
{
    let mut entries: Vec<MenuEntry> = Vec::new();
    entries.push(MenuEntry::Item(String::from_str("Close"), Choice::Close));
    if window.is_fullscreen {
        entries.push(MenuEntry::Item(String::from_str("Leave Full Screen"), Choice::LeaveFullScreen));
    } else if window.is_minimized {
        entries.push(MenuEntry::Item(String::from_str("Restore"), Choice::Restore));
    } else {
        entries.push(MenuEntry::Item(String::from_str("Minimize"), Choice::Minimize));
    }
    entries.push(MenuEntry::Separator);
    entries.push(quit_item(application));
    let ghost head = entries_view(entries@);
    assert(head =~= seq![
        item("Close"@, Choice::Close),
        if window.is_fullscreen {
            item("Leave Full Screen"@, Choice::LeaveFullScreen)
        } else if window.is_minimized {
            item("Restore"@, Choice::Restore)
        } else {
            item("Minimize"@, Choice::Minimize)
        },
        separator(),
        item(quit_title(application.name@), Choice::Quit),
    ]);
    let screen_uuid = match screen {
        Some(uuid) => uuid,
        None => "",
    };
    let ghost all = desktop.spaces@;
    let ghost on_screen = on_display(screen_uuid@);
    let ghost is_desktop = a_desktop();
    let ghost elsewhere = not_holding(*window);
    let ghost moves = all.filter(on_screen).filter(is_desktop).filter(elsewhere);
    let ghost wanted = if screen is Some && !window.is_fullscreen {
        moves
    } else {
        Seq::empty()
    };
    let mut targets: Vec<&Space> = Vec::new();
    if screen.is_some() && !window.is_fullscreen {
        let mut k: usize = 0;
        assert(all.take(0).filter(on_screen) =~= Seq::<Space>::empty());
        assert(Seq::<Space>::empty().filter(is_desktop) =~= Seq::<Space>::empty());
        assert(Seq::<Space>::empty().filter(elsewhere) =~= Seq::<Space>::empty());
        while k < desktop.spaces.len()
            invariant
                k <= all.len(),
                all == desktop.spaces@,
                on_screen == on_display(screen_uuid@),
                is_desktop == a_desktop(),
                elsewhere == not_holding(*window),
                targets@.map_values(|space: &Space| *space) == all.take(k as int).filter(
                    on_screen,
                ).filter(is_desktop).filter(elsewhere),
            decreases all.len() - k,
        {
            reveal_with_fuel(Seq::<_>::filter, 1);
            let space = &desktop.spaces[k];
            let ghost before = targets@;
            let ghost first = all.take(k as int).filter(on_screen);
            let ghost second = first.filter(is_desktop);
            assert(all.take(k + 1).drop_last() =~= all.take(k as int));
            let here = same_text(space.display_uuid.as_str(), screen_uuid);
            if here {
                assert(all.take(k + 1).filter(on_screen) == first.push(*space));
                assert(first.push(*space).drop_last() =~= first);
                if space.kind == SpaceKind::Desktop {
                    assert(first.push(*space).filter(is_desktop) == second.push(*space));
                    assert(second.push(*space).drop_last() =~= second);
                    if !is_on(window, space.id) {
                        targets.push(space);
                        assert(targets@.map_values(|space: &Space| *space) =~= before.map_values(
                            |space: &Space| *space,
                        ).push(*space));
                    }
                }
            }
            k = k + 1;
        }
        assert(all.take(all.len() as int) =~= all);
    }
    let ghost targets_view = targets@.map_values(|space: &Space| *space);
    assert(targets_view == wanted);
    proof {
        assert forall|m: int| 0 <= m < targets_view.len() implies desktop.spaces@.contains(
            #[trigger] targets_view[m],
        ) by {
            let a = all.filter(on_screen);
            let b = a.filter(is_desktop);
            assert(moves.contains(targets_view[m]));
            b.lemma_filter_contains_rev(elsewhere, targets_view[m]);
            a.lemma_filter_contains_rev(is_desktop, targets_view[m]);
            all.lemma_filter_contains_rev(on_screen, targets_view[m]);
        }
    }
    if targets.len() > 0 {
        entries.push(MenuEntry::Separator);
    }
    let ghost lead = entries_view(entries@);
    assert(lead =~= head + if wanted.len() > 0 {
        seq![separator()]
    } else {
        Seq::empty()
    });
    assert(wanted == destinations(
        desktop.spaces@,
        *window,
        match screen {
            Some(uuid) => Some(uuid@),
            None => None,
        },
    ));
    let mut k: usize = 0;
    while k < targets.len()
        invariant
            k <= targets@.len(),
            targets_view == targets@.map_values(|space: &Space| *space),
            forall|m: int|
                0 <= m < desktop.spaces@.len() ==> (#[trigger] desktop.spaces@[m]).index != Some(
                    usize::MAX,
                ),
            forall|m: int|
                0 <= m < targets_view.len() ==> desktop.spaces@.contains(#[trigger] targets_view[m]),
            entries_view(entries@) == lead + targets_view.take(k as int).map_values(
                |space: Space| item(move_title(space.index), Choice::MoveTo(space.id)),
            ),
        decreases targets@.len() - k,
    {
        let space = targets[k];
        assert(targets_view[k as int] == *space);
        let ghost before = entries@;
        entries.push(move_item(space));
        assert(entries_view(entries@) =~= entries_view(before).push(entry_view(entries@.last())));
        assert(targets_view.take(k + 1).map_values(
            |space: Space| item(move_title(space.index), Choice::MoveTo(space.id)),
        ) =~= targets_view.take(k as int).map_values(
            |space: Space| item(move_title(space.index), Choice::MoveTo(space.id)),
        ).push(item(move_title(space.index), Choice::MoveTo(space.id))));
        k = k + 1;
    }
    assert(targets_view.take(targets_view.len() as int) =~= targets_view);
    assert(entries_view(entries@) =~= window_plan(
        *window,
        application.name@,
        destinations(
            desktop.spaces@,
            *window,
            match screen {
                Some(uuid) => Some(uuid@),
                None => None,
            },
        ),
    ));
    entries
}

/// The menu of an application with no windows, which can only be quit from here.
pub fn application_menu(application: &Application) -> (r: Vec<MenuEntry>)
    ensures
        entries_view(r@) == seq![item(quit_title(application.name@), Choice::Quit)],
{
    let mut entries: Vec<MenuEntry> = Vec::new();
    entries.push(quit_item(application));
    assert(entries_view(entries@) =~= seq![item(quit_title(application.name@), Choice::Quit)]);
    entries
}

/// Edged's own menu: launch at login, checked when set, which turns it the other way;
/// a fresh look at the desktop; a way to window previews while screen recording is not
/// granted; the settings; and quit.
pub open spec fn edged_plan(launches: bool, screen_recording: bool) -> Seq<
    (Seq<char>, Option<bool>, Option<Choice>),
> {
    seq![
        ("Launch at Login"@, Some(launches), Some(Choice::LaunchAtLogin(!launches))),
        item("Refresh"@, Choice::Refresh),
    ] + (if screen_recording {
        Seq::empty()
    } else {
        seq![separator(), item("Show Window Previews…"@, Choice::ShowPreviews)]
    }) + seq![
        separator(),
        item("Settings…"@, Choice::OpenSettings),
        separator(),
        item("Quit Edged"@, Choice::QuitEdged),
    ]
}

/// Edged's own menu, given whether it launches at login and whether screen recording
/// is granted; see `edged_plan`.
pub fn edged_menu(launches: bool, screen_recording: bool) -> (r: Vec<MenuEntry>)
    ensures
        entries_view(r@) == edged_plan(launches, screen_recording),
{
    let mut entries: Vec<MenuEntry> = Vec::new();
    entries.push(
        MenuEntry::Checked(
            String::from_str("Launch at Login"),
            launches,
            Choice::LaunchAtLogin(!launches),
        ),
    );
    entries.push(MenuEntry::Item(String::from_str("Refresh"), Choice::Refresh));
    if !screen_recording {
        entries.push(MenuEntry::Separator);
        entries.push(MenuEntry::Item(String::from_str("Show Window Previews…"), Choice::ShowPreviews));
    }
    entries.push(MenuEntry::Separator);
    entries.push(MenuEntry::Item(String::from_str("Settings…"), Choice::OpenSettings));
    entries.push(MenuEntry::Separator);
    entries.push(MenuEntry::Item(String::from_str("Quit Edged"), Choice::QuitEdged));
    assert(entries_view(entries@) =~= edged_plan(launches, screen_recording));
    entries
}

/// The choice of the entry at `index`, as the menu shown reports it: `None` for a
/// separator or a place the menu does not have.
pub fn chosen(entries: &Vec<MenuEntry>, index: usize) -> (r: Option<Choice>)
    ensures
        r == if index < entries@.len() {
            entry_view(entries@[index as int]).2
        } else {
            None
        },
{
    if index >= entries.len() {
        return None;
    }
    match &entries[index] {
        MenuEntry::Item(_, choice) => Some(*choice),
        MenuEntry::Checked(_, _, choice) => Some(*choice),
        MenuEntry::Separator => None,
    }
}

} // verus!
