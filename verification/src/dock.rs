//! What the Dock shows on its tiles: the badge text, such as an unread count, and the
//! count the panel draws of it.

use vstd::prelude::*;
use vstd::string::*;

use crate::text::{
    decimal, decimal_text, parse_decimal, parsed_u64, same_text, signed_decimal,
    signed_decimal_text, trim, trim_trailing_slashes, trimmed, without_trailing_slashes,
};

verus! {

/// One tile of the Dock, as its accessibility element reports it.
pub struct DockTile {
    /// Whether the tile is an application's.
    pub is_application_item: bool,
    /// Whether that application runs, where the tile says.
    pub is_running: Option<bool>,
    /// The path of the application's bundle, where the tile names one.
    pub url_path: Option<String>,
    /// The badge text, where the tile has one.
    pub status_label: Option<String>,
}

/// The badge a tile contributes: keyed by its bundle path without a trailing `/`, for a
/// running application's tile with a path and a badge.
pub open spec fn tile_badge(tile: DockTile) -> Option<(Seq<char>, Seq<char>)> {
    if tile.is_application_item && tile.is_running == Some(true) {
        match (tile.url_path, tile.status_label) {
            (Some(path), Some(label)) => Some((without_trailing_slashes(path@), label@)),
            _ => None,
        }
    } else {
        None
    }
}

/// The badges of these tiles, in the Dock's order.
pub open spec fn badge_entries(tiles: Seq<DockTile>) -> Seq<(Seq<char>, Seq<char>)>
    decreases tiles.len(),
{
    if tiles.len() == 0 {
        Seq::empty()
    } else {
        let earlier = badge_entries(tiles.drop_last());
        match tile_badge(tiles.last()) {
            Some(entry) => earlier.push(entry),
            None => earlier,
        }
    }
}

/// The texts of badge entries.
pub open spec fn entry_texts(entries: Seq<(String, String)>) -> Seq<(Seq<char>, Seq<char>)> {
    entries.map_values(|entry: (String, String)| (entry.0@, entry.1@))
}

/// The badge on each running application's Dock tile, keyed by bundle path, in the
/// Dock's order. Empty until accessibility access is granted, since no tile is read.
pub fn badges(tiles: &Vec<DockTile>) -> (r: Vec<(String, String)>)
    ensures
        entry_texts(r@) == badge_entries(tiles@),
{
    let mut found: Vec<(String, String)> = Vec::new();
    let mut i: usize = 0;
    assert(tiles@.take(0) =~= Seq::<DockTile>::empty());
    while i < tiles.len()
        invariant
            i <= tiles@.len(),
            entry_texts(found@) == badge_entries(tiles@.take(i as int)),
        decreases tiles@.len() - i,
    {
        let tile = &tiles[i];
        assert(tiles@.take(i + 1).drop_last() =~= tiles@.take(i as int));
        let running = match tile.is_running {
            Some(running) => running,
            None => false,
        };
        if tile.is_application_item && running {
            match (&tile.url_path, &tile.status_label) {
                (Some(path), Some(label)) => {
                    let ghost before = found@;
                    found.push((trim_trailing_slashes(path.as_str()), label.clone()));
                    assert(entry_texts(found@) =~= entry_texts(before).push(
                        (without_trailing_slashes(path@), label@),
                    ));
                },
                _ => {},
            }
        }
        i = i + 1;
    }
    assert(tiles@.take(tiles@.len() as int) =~= tiles@);
    found
}

/// The badge stored for a key: the last entry for it, as a map collected from the entries
/// keeps.
pub open spec fn badge_lookup(entries: Seq<(Seq<char>, Seq<char>)>, key: Seq<char>) -> Option<
    Seq<char>,
>
    decreases entries.len(),
{
    if entries.len() == 0 {
        None
    } else if entries.last().0 == key {
        Some(entries.last().1)
    } else {
        badge_lookup(entries.drop_last(), key)
    }
}

/// The Dock's badge for an application, by its bundle path; none for an application with
/// no bundle.
pub fn badge_of(bundle_path: &Option<String>, badges: &Vec<(String, String)>) -> (r: Option<
    String,
>)
    ensures
        match bundle_path {
            Some(path) => match r {
                Some(badge) => badge_lookup(entry_texts(badges@), without_trailing_slashes(path@))
                    == Some(badge@),
                None => badge_lookup(entry_texts(badges@), without_trailing_slashes(path@))
                    is None,
            },
            None => r is None,
        },
{
    let path = match bundle_path {
        Some(path) => path,
        None => return None,
    };
    let key = trim_trailing_slashes(path.as_str());
    let ghost texts = entry_texts(badges@);
    let mut i: usize = badges.len();
    assert(texts.take(i as int) =~= texts);
    while i > 0
        invariant
            i <= badges@.len(),
            *bundle_path == Some(*path),
            key@ == without_trailing_slashes(path@),
            texts == entry_texts(badges@),
            badge_lookup(texts, key@) == badge_lookup(texts.take(i as int), key@),
        decreases i,
    {
        let entry = &badges[i - 1];
        assert(texts.take(i as int).drop_last() =~= texts.take(i - 1));
        assert(texts.take(i as int).last() == (entry.0@, entry.1@));
        if same_text(entry.0.as_str(), key.as_str()) {
            return Some(entry.1.clone());
        }
        i = i - 1;
    }
    None
}

/// The count a badge shows: its number, capped where a wider count would leave the strip;
/// `None` for a badge that is not a number, which shows as a dot.
pub open spec fn badge_count_text(label: Seq<char>) -> Option<Seq<char>> {
    match parsed_u64(trimmed(label)) {
        Some(count) => if count > 99 {
            Some("99+"@)
        } else {
            Some(decimal_text(count as nat))
        },
        None => None,
    }
}

/// A numeric badge as the Dock shows it, capped at `99+`.
pub fn badge_count(label: &str) -> (r: Option<String>)
    ensures
        match r {
            Some(text) => badge_count_text(label@) == Some(text@),
            None => badge_count_text(label@) is None,
        },
{
    let count = match parse_decimal(trim(label)) {
        Some(count) => count,
        None => return None,
    };
    if count > 99 {
        proof {
            reveal_strlit("99+");
        }
        Some(String::from_str("99+"))
    } else {
        Some(decimal(count))
    }
}

/// What an application's icon is cached by: its bundle path, so a relaunch finds it, or
/// its process id for one with no bundle.
pub fn icon_key(bundle_path: &Option<String>, pid: i32) -> (r: String)
    ensures
        r@ == match bundle_path {
            Some(path) => path@,
            None => signed_decimal_text(pid as int),
        },
{
    match bundle_path {
        Some(path) => path.clone(),
        None => signed_decimal(pid),
    }
}

/// The Dock's bundle identifier.
pub const DOCK_BUNDLE: &'static str = "com.apple.dock";

/// The process of the Dock, among the running processes given by bundle identifier and
/// process id: the first whose identifier is the Dock's.
pub fn dock_pid(running: &Vec<(Option<String>, i32)>) -> (r: Option<i32>)
    ensures
        match r {
            Some(pid) => exists|k: int|
                0 <= k < running@.len() && running@[k].1 == pid && (running@[k].0 matches Some(
                    id,
                ) && id@ == DOCK_BUNDLE@) && forall|m: int|
                    0 <= m < k ==> !(#[trigger] running@[m].0 matches Some(other) && other@
                        == DOCK_BUNDLE@),
            None => forall|m: int|
                0 <= m < running@.len() ==> !(#[trigger] running@[m].0 matches Some(other) && other@
                    == DOCK_BUNDLE@),
        },
{
    let mut k: usize = 0;
    while k < running.len()
        invariant
            k <= running@.len(),
            forall|m: int|
                0 <= m < k ==> !(#[trigger] running@[m].0 matches Some(other) && other@
                    == DOCK_BUNDLE@),
        decreases running@.len() - k,
    {
        let is_dock = match &running[k].0 {
            Some(id) => same_text(id.as_str(), DOCK_BUNDLE),
            None => false,
        };
        if is_dock {
            return Some(running[k].1);
        }
        k = k + 1;
    }
    None
}

} // verus!
