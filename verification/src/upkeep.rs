//! Keeping the desktop current: what a fresh read of an application's windows does to
//! the entry held for it, when a walk over its element ids is worth it, and which
//! applications the window server's list says to read again. Reading is the app's;
//! what it read is handed here, and what to read next comes back.

use std::collections::HashSet;

use vstd::prelude::*;

use crate::desktop::{AppEntry, Application, Desktop, Window};
use crate::dock::{badge_lookup, badge_of, entry_texts, icon_key};
use crate::text::{same_text, signed_decimal_text, without_trailing_slashes};
use crate::space::{Change, Space, WindowId};

verus! {

broadcast use vstd::std_specs::hash::group_hash_axioms;

/// The ids of some windows, in order.
pub open spec fn ids_of(windows: Seq<Window>) -> Seq<WindowId> {
    windows.map_values(|window: Window| window.id)
}

/// The windows of a fresh list that count: the window server's list is the judge of
/// what is a window, except for a hidden application, whose windows it does not hold.
pub open spec fn kept_listed(hidden: bool, listed: Seq<Window>, expected: Seq<WindowId>) -> Seq<
    Window,
> {
    listed.filter(counts(hidden, expected))
}

/// Whether a listed window counts; see `kept_listed`.
pub open spec fn counts(hidden: bool, expected: Seq<WindowId>) -> spec_fn(Window) -> bool {
    |window: Window| hidden || expected.contains(window.id)
}

/// Whether a window held before is carried over; see `carried`.
pub open spec fn carries(kept: Seq<Window>, expected: Seq<WindowId>) -> spec_fn(Window) -> bool {
    |window: Window| !ids_of(kept).contains(window.id) && expected.contains(window.id)
}

/// The windows held before that a fresh list left out and the window server still
/// holds: windows on other Spaces, which an application does not list.
pub open spec fn carried(previous: Seq<Window>, kept: Seq<Window>, expected: Seq<WindowId>) -> Seq<
    Window,
> {
    previous.filter(carries(kept, expected))
}

/// The windows an application has after a fresh list.
pub open spec fn merged(hidden: bool, listed: Seq<Window>, previous: Seq<Window>, expected: Seq<
    WindowId,
>) -> Seq<Window> {
    let kept = kept_listed(hidden, listed, expected);
    kept + carried(previous, kept, expected)
}

/// The ids the window server holds that none of these windows has.
pub open spec fn missing_from(expected: Seq<WindowId>, windows: Seq<Window>) -> Seq<WindowId> {
    expected.filter(|id: WindowId| !ids_of(windows).contains(id))
}

/// Whether every id of `a` is in the set `b`.
pub open spec fn all_in_set(a: Seq<WindowId>, b: Set<WindowId>) -> bool {
    forall|k: int| 0 <= k < a.len() ==> b.contains(#[trigger] a[k])
}

/// Whether every id of `a` is among `b`.
pub open spec fn all_within(a: Seq<WindowId>, b: Seq<WindowId>) -> bool {
    forall|k: int| 0 <= k < a.len() ==> b.contains(#[trigger] a[k])
}

/// Whether `i` is the place of the first entry of process `pid`.
pub open spec fn entry_place(applications: Seq<AppEntry>, pid: i32, i: int) -> bool {
    &&& 0 <= i < applications.len()
    &&& applications[i].application.pid == pid
    &&& forall|j: int| 0 <= j < i ==> (#[trigger] applications[j]).application.pid != pid
}

/// Whether no entry is of process `pid`.
pub open spec fn no_entry(applications: Seq<AppEntry>, pid: i32) -> bool {
    forall|j: int| 0 <= j < applications.len() ==> (#[trigger] applications[j]).application.pid != pid
}

/// Whether `after` is `before` with only entry `i` changed, and in it only its windows,
/// now `windows`, and the window it would type into, now `focused`.
pub open spec fn entry_changed(
    before: Seq<AppEntry>,
    after: Seq<AppEntry>,
    i: int,
    windows: Seq<Window>,
    focused: Option<WindowId>,
) -> bool {
    &&& after.len() == before.len()
    &&& forall|j: int| 0 <= j < before.len() && j != i ==> after[j] == before[j]
    &&& after[i].application == before[i].application
    &&& after[i].badge == before[i].badge
    &&& after[i].focused == focused
    &&& after[i].windows@ == windows
}

/// The text of an optional string.
pub open spec fn text_of(value: Option<String>) -> Option<Seq<char>> {
    match value {
        Some(text) => Some(text@),
        None => None,
    }
}

/// The badge the Dock shows for an application at `bundle_path`, from the badges read
/// by bundle path.
pub open spec fn badge_for(bundle_path: Option<String>, badges: Seq<(String, String)>) -> Option<
    Seq<char>,
> {
    match bundle_path {
        Some(path) => badge_lookup(entry_texts(badges), without_trailing_slashes(path@)),
        None => None,
    }
}

/// Whether the window at `x` is the first with id `id`.
pub open spec fn window_place(windows: Seq<Window>, id: WindowId, x: int) -> bool {
    &&& 0 <= x < windows.len()
    &&& windows[x].id == id
    &&& forall|y: int| 0 <= y < x ==> (#[trigger] windows[y]).id != id
}

/// Whether the application of process `pid` is active, by the last report of it.
pub open spec fn active_in(active: Seq<(i32, bool)>, pid: i32) -> Option<bool>
    decreases active.len(),
{
    if active.len() == 0 {
        None
    } else if active.last().0 == pid {
        Some(active.last().1)
    } else {
        active_in(active.drop_last(), pid)
    }
}

/// Whether the running application at `k` is of a process an application before it
/// already was.
pub open spec fn seen_before(running: Seq<(Application, Option<WindowId>)>, k: int) -> bool {
    exists|j: int| 0 <= j < k && (#[trigger] running[j]).0.pid == running[k].0.pid
}

/// Whether `i` is the place of the last entry of process `pid`.
pub open spec fn last_place(applications: Seq<AppEntry>, pid: i32, i: int) -> bool {
    &&& 0 <= i < applications.len()
    &&& applications[i].application.pid == pid
    &&& forall|j: int| i < j < applications.len() ==> (#[trigger] applications[j]).application.pid != pid
}

/// Whether the running application at `k` arrived: no entry was held for its process,
/// or an application before it took that entry.
pub open spec fn is_arrival(
    before: Seq<AppEntry>,
    running: Seq<(Application, Option<WindowId>)>,
    k: int,
) -> bool {
    seen_before(running, k) || no_entry(before, running[k].0.pid)
}

/// The processes of the first `k` running applications that arrived, in order.
pub open spec fn arrivals(
    before: Seq<AppEntry>,
    running: Seq<(Application, Option<WindowId>)>,
    k: int,
) -> Seq<i32>
    decreases k,
{
    if k <= 0 {
        Seq::empty()
    } else if is_arrival(before, running, k - 1) {
        arrivals(before, running, k - 1).push(running[k - 1].0.pid)
    } else {
        arrivals(before, running, k - 1)
    }
}

/// Whether `after` is what running application `k` is listed as: an application that
/// arrived with no windows yet and its Dock badge; one already listed with the windows
/// and badge of the last entry of its process.
pub open spec fn synced(
    before: Seq<AppEntry>,
    running: Seq<(Application, Option<WindowId>)>,
    badges: Seq<(String, String)>,
    k: int,
    after: AppEntry,
) -> bool {
    &&& after.application == running[k].0
    &&& after.focused == focus_kept(running[k].0, running[k].1)
    &&& is_arrival(before, running, k) ==> after.windows@.len() == 0 && text_of(after.badge)
        == badge_for(running[k].0.bundle_path, badges)
    &&& forall|i: int|
        #![trigger last_place(before, running[k].0.pid, i)]
        last_place(before, running[k].0.pid, i) && !seen_before(running, k) ==> after.windows
            == before[i].windows && after.badge == before[i].badge
}

/// Whether slot `i` still holds the entry it was filled with: every slot but the last
/// entry of a process already listed again.
pub open spec fn slot_held(
    before: Seq<AppEntry>,
    seen: Seq<i32>,
    slots: Seq<Option<AppEntry>>,
    i: int,
) -> bool {
    slots[i] == if last_place(before, before[i].application.pid, i) && seen.contains(
        before[i].application.pid,
    ) {
        None
    } else {
        Some(before[i])
    }
}

/// What a walk over an application's element ids left to do.
pub enum WalkOutcome {
    /// Every window the window server holds for it is accounted for.
    Settled,
    /// The walk reached the end and these ids are still missing: windows
    /// accessibility never shows, not to be walked for again until the list changes.
    Unresolved(HashSet<WindowId>),
    /// The walk has more ids to try, from where it stopped.
    Resume,
}

/// Whether some texts hold `text`.
pub open spec fn has_text(texts: Seq<String>, text: Seq<char>) -> bool {
    exists|m: int| 0 <= m < texts.len() && texts[m]@ == text
}

/// Whether one of the first `n` Spaces belongs to the display `uuid`.
pub open spec fn shows_display(spaces: Seq<Space>, n: int, uuid: Seq<char>) -> bool {
    exists|q: int| 0 <= q < n && spaces[q].display_uuid@ == uuid
}

/// The window an application types into, as the entry keeps it: only the active
/// application's is read, since any other's names a window nobody is looking at.
pub open spec fn focus_kept(application: Application, focused: Option<WindowId>) -> Option<WindowId> {
    if application.is_active {
        focused
    } else {
        None
    }
}

/// The focused window kept for an application, active or not; see `focus_kept`.
pub fn focus_of(is_active: bool, focused: Option<WindowId>) -> (r: Option<WindowId>)
    ensures
        r == (if is_active {
            focused
        } else {
            None
        }),
{
    if is_active {
        focused
    } else {
        None
    }
}

/// One step of a filter: the first `k + 1` items keep what the first `k` kept, and item
/// `k` too when it passes.
pub proof fn lemma_filter_step<A>(items: Seq<A>, keep: spec_fn(A) -> bool, k: int)
    requires
        0 <= k < items.len(),
    ensures
        items.take(k + 1).filter(keep) == if keep(items[k]) {
            items.take(k).filter(keep).push(items[k])
        } else {
            items.take(k).filter(keep)
        },
{
    reveal_with_fuel(Seq::<_>::filter, 1);
    assert(items.take(k + 1).drop_last() =~= items.take(k));
}

/// The place of the first window with id `id`.
pub fn place_in(windows: &Vec<Window>, id: WindowId) -> (r: Option<usize>)
    ensures
        match r {
            Some(x) => window_place(windows@, id, x as int),
            None => forall|x: int| 0 <= x < windows@.len() ==> (#[trigger] windows@[x]).id != id,
        },
{
    let mut x: usize = 0;
    while x < windows.len()
        invariant
            x <= windows@.len(),
            forall|y: int| 0 <= y < x ==> (#[trigger] windows@[y]).id != id,
        decreases windows@.len() - x,
    {
        if windows[x].id == id {
            return Some(x);
        }
        x = x + 1;
    }
    None
}

/// A window dropped from an entry is gone from it.
pub proof fn lemma_removed_window_gone(windows: Seq<Window>, id: WindowId)
    ensures
        !ids_of(windows.filter(|window: Window| window.id != id)).contains(id),
{
    let kept = windows.filter(|window: Window| window.id != id);
    if ids_of(kept).contains(id) {
        let k = choose|k: int| 0 <= k < ids_of(kept).len() && ids_of(kept)[k] == id;
        windows.lemma_filter_pred(|window: Window| window.id != id, k);
    }
}

/// The window server's list is the judge of what is a window: after a fresh list, an
/// application that is not hidden has only windows the window server holds for it.
pub proof fn lemma_listed_windows_are_held(
    listed: Seq<Window>,
    previous: Seq<Window>,
    expected: Seq<WindowId>,
)
    ensures
        all_within(ids_of(merged(false, listed, previous, expected)), expected),
{
    let kept = kept_listed(false, listed, expected);
    let carry = carried(previous, kept, expected);
    let all = merged(false, listed, previous, expected);
    assert forall|k: int| 0 <= k < ids_of(all).len() implies expected.contains(
        #[trigger] ids_of(all)[k],
    ) by {
        if k < kept.len() {
            assert(all[k] == kept[k]);
            listed.lemma_filter_pred(counts(false, expected), k);
        } else {
            assert(all[k] == carry[k - kept.len()]);
            previous.lemma_filter_pred(carries(kept, expected), k - kept.len());
        }
    }
}

/// Whether a window of process `pid` is not among the windows reported closed.
pub open spec fn not_closed(closed: Seq<(i32, WindowId)>, pid: i32) -> spec_fn(Window) -> bool {
    |window: Window| !closed.contains((pid, window.id))
}

/// Whether the windows reported closed hold window `id` of process `pid`.
pub fn is_closed(closed: &Vec<(i32, WindowId)>, pid: i32, id: WindowId) -> (r: bool)
    ensures
        r == closed@.contains((pid, id)),
{
    let mut k: usize = 0;
    while k < closed.len()
        invariant
            k <= closed@.len(),
            forall|m: int| 0 <= m < k ==> closed@[m] != (pid, id),
        decreases closed@.len() - k,
    {
        if closed[k].0 == pid && closed[k].1 == id {
            assert(closed@[k as int] == (pid, id));
            return true;
        }
        k = k + 1;
    }
    false
}

/// Process `pid`'s windows without those reported closed.
fn drop_closed(windows: Vec<Window>, closed: &Vec<(i32, WindowId)>, pid: i32) -> (r: Vec<Window>)
    ensures
        r@ == windows@.filter(not_closed(closed@, pid)),
{
    let ghost first = windows@;
    let ghost keep = not_closed(closed@, pid);
    let mut windows = windows;
    let mut kept: Vec<Window> = Vec::new();
    let n = windows.len();
    let mut k: usize = 0;
    while k < n
        invariant
            n == first.len(),
            k <= n,
            windows@ == first.skip(k as int),
            keep == not_closed(closed@, pid),
            kept@ == first.take(k as int).filter(keep),
        decreases n - k,
    {
        proof {
            lemma_filter_step(first, keep, k as int);
        }
        let window = windows.remove(0);
        assert(first.skip(k as int)[0] == first[k as int]);
        assert(first.skip(k + 1) =~= first.skip(k as int).subrange(1, n - k));
        if !is_closed(closed, pid, window.id) {
            kept.push(window);
        }
        k = k + 1;
    }
    assert(first.take(n as int) =~= first);
    kept
}

/// What a filter keeps of items that are each there once is there once too.
pub proof fn lemma_filter_once<A>(items: Seq<A>, keep: spec_fn(A) -> bool)
    requires
        crate::listing::distinct(items),
    ensures
        crate::listing::distinct(items.filter(keep)),
    decreases items.len(),
{
    reveal_with_fuel(Seq::<_>::filter, 1);
    if items.len() > 0 {
        let rest = items.drop_last();
        assert(crate::listing::distinct(rest));
        lemma_filter_once(rest, keep);
        let kept = items.filter(keep);
        if keep(items.last()) {
            assert forall|a: int, b: int| 0 <= a < b < kept.len() implies kept[a] != kept[b] by {
                if b == kept.len() - 1 {
                    if kept[a] == kept[b] {
                        assert(rest.filter(keep).contains(items.last())) by {
                            assert(rest.filter(keep)[a] == items.last());
                        }
                        rest.lemma_filter_contains_rev(keep, items.last());
                        let m = choose|m: int| 0 <= m < rest.len() && rest[m] == items.last();
                        assert(items[m] == items[items.len() - 1]);
                    }
                }
            }
        }
    }
}

/// Whether `after` is entry `i` of `applications` with the windows reported closed
/// dropped, when it is the first entry of its process, and as it was otherwise.
pub open spec fn entry_cleared(
    applications: Seq<AppEntry>,
    closed: Seq<(i32, WindowId)>,
    i: int,
    after: AppEntry,
) -> bool {
    let before = applications[i];
    &&& after.application == before.application
    &&& after.focused == before.focused
    &&& after.badge == before.badge
    &&& after.windows@ == if entry_place(applications, before.application.pid, i) {
        before.windows@.filter(not_closed(closed, before.application.pid))
    } else {
        before.windows@
    }
}

/// Whether entry `i` is the first of its process.
fn first_of_pid(applications: &Vec<AppEntry>, i: usize) -> (r: bool)
    requires
        i < applications@.len(),
    ensures
        r == entry_place(applications@, applications@[i as int].application.pid, i as int),
{
    let pid = applications[i].application.pid;
    let mut j: usize = 0;
    while j < i
        invariant
            j <= i < applications@.len(),
            pid == applications@[i as int].application.pid,
            forall|q: int| 0 <= q < j ==> (#[trigger] applications@[q]).application.pid != pid,
        decreases i - j,
    {
        if applications[j].application.pid == pid {
            return false;
        }
        j = j + 1;
    }
    true
}

/// Whether no two windows share an id.
pub open spec fn ids_once(windows: Seq<Window>) -> bool {
    forall|a: int, b: int| 0 <= a < b < windows.len() ==> windows[a].id != windows[b].id
}

proof fn lemma_filter_keeps_ids_once(windows: Seq<Window>, keep: spec_fn(Window) -> bool)
    requires
        ids_once(windows),
    ensures
        ids_once(windows.filter(keep)),
    decreases windows.len(),
{
    reveal_with_fuel(Seq::<_>::filter, 1);
    if windows.len() > 0 {
        let rest = windows.drop_last();
        lemma_filter_keeps_ids_once(rest, keep);
        let kept = windows.filter(keep);
        if keep(windows.last()) {
            assert forall|a: int, b: int| 0 <= a < b < kept.len() implies kept[a].id != kept[b].id by {
                if b == kept.len() - 1 && kept[a].id == kept[b].id {
                    assert(rest.filter(keep)[a] == kept[a]);
                    assert(rest.filter(keep).contains(kept[a]));
                    rest.lemma_filter_contains_rev(keep, kept[a]);
                    let m = choose|m: int| 0 <= m < rest.len() && rest[m] == kept[a];
                    assert(windows[m].id == windows[windows.len() - 1].id);
                }
            }
        }
    }
}

/// A fresh list never shows a window twice: when the windows listed hold no id twice,
/// and neither did those held before, the entry's windows after the list hold no id
/// twice; a window held before is carried over only when the list does not already hold
/// its id.
pub proof fn lemma_merged_ids_once(
    hidden: bool,
    listed: Seq<Window>,
    previous: Seq<Window>,
    expected: Seq<WindowId>,
)
    requires
        ids_once(listed),
        ids_once(previous),
    ensures
        ids_once(merged(hidden, listed, previous, expected)),
        forall|k: int|
            0 <= k < merged(hidden, listed, previous, expected).len() ==> (listed.contains(
                #[trigger] merged(hidden, listed, previous, expected)[k],
            ) || previous.contains(merged(hidden, listed, previous, expected)[k])),
{
    let keep_listed = |window: Window| hidden || expected.contains(window.id);
    let kept = listed.filter(keep_listed);
    assert(kept == kept_listed(hidden, listed, expected));
    lemma_filter_keeps_ids_once(listed, keep_listed);
    let keep_previous = |window: Window|
        !ids_of(kept).contains(window.id) && expected.contains(window.id);
    let carry = previous.filter(keep_previous);
    assert(carry == carried(previous, kept, expected));
    lemma_filter_keeps_ids_once(previous, keep_previous);
    let all = kept + carry;
    assert(all == merged(hidden, listed, previous, expected));
    assert forall|a: int, b: int| 0 <= a < b < all.len() implies all[a].id != all[b].id by {
        if a < kept.len() && b >= kept.len() {
            let c = b - kept.len();
            assert(all[b] == carry[c]);
            previous.lemma_filter_pred(keep_previous, c);
            assert(ids_of(kept)[a] == kept[a].id);
        } else if a >= kept.len() {
            assert(all[a] == carry[a - kept.len()] && all[b] == carry[b - kept.len()]);
        } else {
            assert(all[a] == kept[a]);
            if b < kept.len() {
                assert(all[b] == kept[b]);
            }
        }
    }
    assert forall|k: int| 0 <= k < all.len() implies (listed.contains(#[trigger] all[k])
        || previous.contains(all[k])) by {
        if k < kept.len() {
            assert(kept.contains(all[k]));
            listed.lemma_filter_contains_rev(keep_listed, all[k]);
        } else {
            assert(all[k] == carry[k - kept.len()]);
            assert(carry.contains(all[k]));
            previous.lemma_filter_contains_rev(keep_previous, all[k]);
        }
    }
}

/// Whether some ids hold `id`.
pub fn holds_id(ids: &Vec<WindowId>, id: WindowId) -> (r: bool)
    ensures
        r == ids@.contains(id),
{
    let mut k: usize = 0;
    while k < ids.len()
        invariant
            k <= ids@.len(),
            forall|m: int| 0 <= m < k ==> ids@[m] != id,
        decreases ids@.len() - k,
    {
        if ids[k] == id {
            assert(ids@[k as int] == id);
            return true;
        }
        k = k + 1;
    }
    false
}

/// The ids of some windows.
pub fn window_ids(windows: &Vec<Window>) -> (r: Vec<WindowId>)
    ensures
        r@ == ids_of(windows@),
{
    let mut ids: Vec<WindowId> = Vec::new();
    let mut k: usize = 0;
    while k < windows.len()
        invariant
            k <= windows@.len(),
            ids@ == ids_of(windows@.take(k as int)),
        decreases windows@.len() - k,
    {
        ids.push(windows[k].id);
        assert(ids_of(windows@.take(k + 1)) =~= ids_of(windows@.take(k as int)).push(windows@[k as int].id));
        k = k + 1;
    }
    assert(windows@.take(windows@.len() as int) =~= windows@);
    ids
}

/// Whether every id of `a` is among `b`.
pub fn is_within(a: &Vec<WindowId>, b: &Vec<WindowId>) -> (r: bool)
    ensures
        r == all_within(a@, b@),
{
    let mut k: usize = 0;
    while k < a.len()
        invariant
            k <= a@.len(),
            forall|m: int| 0 <= m < k ==> b@.contains(#[trigger] a@[m]),
        decreases a@.len() - k,
    {
        if !holds_id(b, a[k]) {
            return false;
        }
        k = k + 1;
    }
    true
}

/// Whether every id of `a` is in the set `b`.
pub fn is_within_set(a: &Vec<WindowId>, b: &HashSet<WindowId>) -> (r: bool)
    ensures
        r == all_in_set(a@, b@),
{
    let mut k: usize = 0;
    while k < a.len()
        invariant
            k <= a@.len(),
            forall|m: int| 0 <= m < k ==> b@.contains(#[trigger] a@[m]),
        decreases a@.len() - k,
    {
        if !b.contains(&a[k]) {
            return false;
        }
        k = k + 1;
    }
    true
}

/// The ids of `expected` that none of `windows` has.
pub fn missing(expected: &Vec<WindowId>, windows: &Vec<Window>) -> (r: Vec<WindowId>)
    ensures
        r@ == missing_from(expected@, windows@),
        crate::listing::distinct(expected@) ==> crate::listing::distinct(r@),
{
    proof {
        if crate::listing::distinct(expected@) {
            lemma_filter_once(expected@, |id: WindowId| !ids_of(windows@).contains(id));
        }
    }
    let known = window_ids(windows);
    let ghost keep = |id: WindowId| !ids_of(windows@).contains(id);
    let mut found: Vec<WindowId> = Vec::new();
    let mut k: usize = 0;
    while k < expected.len()
        invariant
            k <= expected@.len(),
            known@ == ids_of(windows@),
            keep == (|id: WindowId| !ids_of(windows@).contains(id)),
            found@ == expected@.take(k as int).filter(keep),
        decreases expected@.len() - k,
    {
        proof {
            lemma_filter_step(expected@, keep, k as int);
        }
        if !holds_id(&known, expected[k]) {
            found.push(expected[k]);
        }
        k = k + 1;
    }
    assert(expected@.take(expected@.len() as int) =~= expected@);
    found
}

/// The windows of a fresh list, and those held before that it left out while the window
/// server still holds them; see `merged`.
pub fn merge_windows(hidden: bool, listed: Vec<Window>, previous: Vec<Window>, expected: &Vec<
    WindowId,
>) -> (r: Vec<Window>)
    ensures
        r@ == merged(hidden, listed@, previous@, expected@),
{
    let ghost first = listed@;
    let ghost keep_listed = counts(hidden, expected@);
    let mut listed = listed;
    let mut kept: Vec<Window> = Vec::new();
    let mut k: usize = 0;
    let n = listed.len();
    while k < n
        invariant
            n == first.len(),
            k <= n,
            listed@ == first.skip(k as int),
            keep_listed == counts(hidden, expected@),
            kept@ == first.take(k as int).filter(keep_listed),
        decreases n - k,
    {
        proof {
            lemma_filter_step(first, keep_listed, k as int);
        }
        let window = listed.remove(0);
        assert(first.skip(k as int)[0] == first[k as int]);
        assert(first.skip(k + 1) =~= first.skip(k as int).subrange(1, n - k));
        if hidden || holds_id(expected, window.id) {
            kept.push(window);
        }
        k = k + 1;
    }
    assert(first.take(n as int) =~= first);
    let kept_ids = window_ids(&kept);
    let ghost before = previous@;
    let ghost kept_seq = kept@;
    let ghost keep_previous = carries(kept_seq, expected@);
    let mut previous = previous;
    let mut windows = kept;
    let m = previous.len();
    let mut k: usize = 0;
    while k < m
        invariant
            m == before.len(),
            k <= m,
            previous@ == before.skip(k as int),
            kept_ids@ == ids_of(kept_seq),
            keep_previous == carries(kept_seq, expected@),
            windows@ == kept_seq + before.take(k as int).filter(keep_previous),
        decreases m - k,
    {
        proof {
            lemma_filter_step(before, keep_previous, k as int);
        }
        let window = previous.remove(0);
        assert(before.skip(k as int)[0] == before[k as int]);
        assert(before.skip(k + 1) =~= before.skip(k as int).subrange(1, m - k));
        if !holds_id(&kept_ids, window.id) && holds_id(expected, window.id) {
            windows.push(window);
            assert(windows@ =~= kept_seq + before.take(k + 1).filter(keep_previous));
        }
        k = k + 1;
    }
    assert(before.take(m as int) =~= before);
    windows
}

impl Desktop {
    /// The place of the first entry of process `pid`.
    pub fn place_of(&self, pid: i32) -> (r: Option<usize>)
        ensures
            match r {
                Some(i) => entry_place(self.applications@, pid, i as int),
                None => no_entry(self.applications@, pid),
            },
    {
        let mut i: usize = 0;
        while i < self.applications.len()
            invariant
                i <= self.applications@.len(),
                forall|j: int| 0 <= j < i ==> (#[trigger] self.applications@[j]).application.pid != pid,
            decreases self.applications@.len() - i,
        {
            if self.applications[i].application.pid == pid {
                return Some(i);
            }
            i = i + 1;
        }
        None
    }

    /// Takes a fresh list of process `pid`'s windows, with the window it would type into
    /// and the ids the window server holds for it, into its entry: the windows become
    /// `merged`. Returns the ids still unaccounted for, which a walk over its element ids
    /// may find; `None` when no entry is of that process, and nothing changes.
    pub fn list_windows(
        &mut self,
        pid: i32,
        expected: &Vec<WindowId>,
        listed: Vec<Window>,
        focused: Option<WindowId>,
    ) -> (r: Option<Vec<WindowId>>)
        ensures
            final(self).spaces == old(self).spaces,
            final(self).showing == old(self).showing,
            no_entry(old(self).applications@, pid) ==> r is None && final(self).applications
                == old(self).applications,
            forall|i: int|
                #![trigger entry_place(old(self).applications@, pid, i)]
                entry_place(old(self).applications@, pid, i) ==> {
                    let before = old(self).applications@[i];
                    let windows = merged(
                        before.application.is_hidden,
                        listed@,
                        before.windows@,
                        expected@,
                    );
                    &&& entry_changed(
                        old(self).applications@,
                        final(self).applications@,
                        i,
                        windows,
                        focus_kept(before.application, focused),
                    )
                    &&& r matches Some(ids) && ids@ == missing_from(expected@, windows)
                },
    {
        let i = match self.place_of(pid) {
            Some(i) => i,
            None => return None,
        };
        let ghost before = self.applications@;
        let AppEntry { application, windows: previous, focused: _, badge } = self.applications.remove(
            i,
        );
        let windows = merge_windows(application.is_hidden, listed, previous, expected);
        let unaccounted = missing(expected, &windows);
        let focused = focus_of(application.is_active, focused);
        self.applications.insert(i, AppEntry { application, windows, focused, badge });
        assert forall|j: int| 0 <= j < before.len() && j != i implies self.applications@[j]
            == before[j] by {
            if j < i {
                assert(self.applications@[j] == before.remove(i as int)[j]);
            } else {
                assert(self.applications@[j] == before.remove(i as int)[j - 1]);
            }
        }
        Some(unaccounted)
    }

    /// Adds to process `pid`'s entry the windows a walk found that it does not have yet.
    pub fn add_windows(&mut self, pid: i32, found: Vec<Window>)
        ensures
            final(self).spaces == old(self).spaces,
            final(self).showing == old(self).showing,
            no_entry(old(self).applications@, pid) ==> final(self).applications
                == old(self).applications,
            forall|i: int|
                #![trigger entry_place(old(self).applications@, pid, i)]
                entry_place(old(self).applications@, pid, i) ==> {
                    let before = old(self).applications@[i];
                    entry_changed(
                        old(self).applications@,
                        final(self).applications@,
                        i,
                        before.windows@ + found@.filter(
                            |window: Window| !ids_of(before.windows@).contains(window.id),
                        ),
                        before.focused,
                    )
                },
    {
        let i = match self.place_of(pid) {
            Some(i) => i,
            None => return ,
        };
        let AppEntry { application, windows, focused, badge } = self.applications.remove(i);
        let known = window_ids(&windows);
        let ghost start = windows@;
        let ghost first = found@;
        let ghost keep = |window: Window| !ids_of(start).contains(window.id);
        let mut windows = windows;
        let mut found = found;
        let n = found.len();
        let mut k: usize = 0;
        while k < n
            invariant
                n == first.len(),
                k <= n,
                found@ == first.skip(k as int),
                known@ == ids_of(start),
                keep == (|window: Window| !ids_of(start).contains(window.id)),
                windows@ == start + first.take(k as int).filter(keep),
            decreases n - k,
        {
            proof {
                lemma_filter_step(first, keep, k as int);
            }
            let window = found.remove(0);
            assert(first.skip(k as int)[0] == first[k as int]);
            assert(first.skip(k + 1) =~= first.skip(k as int).subrange(1, n - k));
            if !holds_id(&known, window.id) {
                windows.push(window);
                assert(windows@ =~= start + first.take(k + 1).filter(keep));
            }
            k = k + 1;
        }
        assert(first.take(n as int) =~= first);
        self.applications.insert(i, AppEntry { application, windows, focused, badge });
        assert forall|j: int| 0 <= j < old(self).applications@.len() && j != i implies self.applications@[j]
            == old(self).applications@[j] by {
            if j < i {
                assert(self.applications@[j] == old(self).applications@.remove(i as int)[j]);
            } else {
                assert(self.applications@[j] == old(self).applications@.remove(i as int)[j - 1]);
            }
        }
    }

    /// Drops a window macOS reported destroyed from process `pid`'s entry: the
    /// application is back among the windowless ones at once when it was the last.
    pub fn remove_window(&mut self, pid: i32, id: WindowId)
        ensures
            final(self).spaces == old(self).spaces,
            final(self).showing == old(self).showing,
            no_entry(old(self).applications@, pid) ==> final(self).applications
                == old(self).applications,
            forall|i: int|
                #![trigger entry_place(old(self).applications@, pid, i)]
                entry_place(old(self).applications@, pid, i) ==> {
                    let before = old(self).applications@[i];
                    entry_changed(
                        old(self).applications@,
                        final(self).applications@,
                        i,
                        before.windows@.filter(|window: Window| window.id != id),
                        before.focused,
                    )
                },
    {
        let i = match self.place_of(pid) {
            Some(i) => i,
            None => return ,
        };
        let AppEntry { application, windows, focused, badge } = self.applications.remove(i);
        let ghost first = windows@;
        let ghost keep = |window: Window| window.id != id;
        let mut windows = windows;
        let mut kept: Vec<Window> = Vec::new();
        let n = windows.len();
        let mut k: usize = 0;
        while k < n
            invariant
                n == first.len(),
                k <= n,
                windows@ == first.skip(k as int),
                keep == (|window: Window| window.id != id),
                kept@ == first.take(k as int).filter(keep),
            decreases n - k,
        {
            proof {
                lemma_filter_step(first, keep, k as int);
            }
            let window = windows.remove(0);
            assert(first.skip(k as int)[0] == first[k as int]);
            assert(first.skip(k + 1) =~= first.skip(k as int).subrange(1, n - k));
            if window.id != id {
                kept.push(window);
            }
            k = k + 1;
        }
        assert(first.take(n as int) =~= first);
        self.applications.insert(i, AppEntry { application, windows: kept, focused, badge });
        assert forall|j: int| 0 <= j < old(self).applications@.len() && j != i implies self.applications@[j]
            == old(self).applications@[j] by {
            if j < i {
                assert(self.applications@[j] == old(self).applications@.remove(i as int)[j]);
            } else {
                assert(self.applications@[j] == old(self).applications@.remove(i as int)[j - 1]);
            }
        }
    }

    /// The windows of process `pid`'s entry, none when it has no entry.
    pub open spec fn windows_of(self, pid: i32) -> Seq<Window> {
        if exists|i: int| entry_place(self.applications@, pid, i) {
            let i = choose|i: int| entry_place(self.applications@, pid, i);
            self.applications@[i].windows@
        } else {
            Seq::empty()
        }
    }

    /// The ids of process `pid`'s windows, none when it has no entry.
    pub fn known_ids(&self, pid: i32) -> (r: Vec<WindowId>)
        ensures
            r@ == ids_of(self.windows_of(pid)),
    {
        match self.place_of(pid) {
            Some(i) => {
                proof {
                    let c = choose|c: int| entry_place(self.applications@, pid, c);
                    assert(c == i as int);
                }
                window_ids(&self.applications[i].windows)
            },
            None => {
                assert(ids_of(Seq::<Window>::empty()) =~= Seq::<WindowId>::empty());
                Vec::new()
            },
        }
    }

    /// Takes what one step of a walk over process `pid`'s element ids found: the windows
    /// the window server holds for it, `expected`, are added where new. Returns whether
    /// any such window was found, and what the walk has left to do; `done` when it went
    /// through every id.
    pub fn walked(&mut self, pid: i32, expected: &Vec<WindowId>, found: Vec<Window>, done: bool) -> (r: (
        bool,
        WalkOutcome,
    ))
        ensures
            ({
                let wanted = found@.filter(|window: Window| expected@.contains(window.id));
                &&& final(self).spaces == old(self).spaces
                &&& final(self).showing == old(self).showing
                &&& no_entry(old(self).applications@, pid) ==> final(self).applications
                    == old(self).applications
                &&& forall|i: int|
                    #![trigger entry_place(old(self).applications@, pid, i)]
                    entry_place(old(self).applications@, pid, i) ==> {
                        let before = old(self).applications@[i];
                        entry_changed(
                            old(self).applications@,
                            final(self).applications@,
                            i,
                            before.windows@ + wanted.filter(
                                |window: Window| !ids_of(before.windows@).contains(window.id),
                            ),
                            before.focused,
                        )
                    }
                &&& r.0 == (wanted.len() > 0)
                &&& {
                    let known = ids_of(final(self).windows_of(pid));
                    match r.1 {
                        WalkOutcome::Settled => all_within(expected@, known),
                        WalkOutcome::Unresolved(ids) => !all_within(expected@, known) && done
                            && ids@ == expected@.filter(|id: WindowId| !known.contains(id)).to_set(),
                        WalkOutcome::Resume => !all_within(expected@, known) && !done,
                    }
                }
            }),
    {
        let ghost first = found@;
        let ghost keep = |window: Window| expected@.contains(window.id);
        let mut found = found;
        let mut wanted: Vec<Window> = Vec::new();
        let n = found.len();
        let mut k: usize = 0;
        while k < n
            invariant
                n == first.len(),
                k <= n,
                found@ == first.skip(k as int),
                keep == (|window: Window| expected@.contains(window.id)),
                wanted@ == first.take(k as int).filter(keep),
            decreases n - k,
        {
            proof {
                lemma_filter_step(first, keep, k as int);
            }
            let window = found.remove(0);
            assert(first.skip(k as int)[0] == first[k as int]);
            assert(first.skip(k + 1) =~= first.skip(k as int).subrange(1, n - k));
            if holds_id(expected, window.id) {
                wanted.push(window);
            }
            k = k + 1;
        }
        assert(first.take(n as int) =~= first);
        let changed = wanted.len() > 0;
        self.add_windows(pid, wanted);
        let known = self.known_ids(pid);
        let outcome = if is_within(expected, &known) {
            WalkOutcome::Settled
        } else if done {
            let ghost keep_missing = |id: WindowId| !known@.contains(id);
            let mut ids: HashSet<WindowId> = HashSet::new();
            let mut k: usize = 0;
            assert(expected@.take(0).filter(keep_missing).to_set() =~= Set::<WindowId>::empty()) by {
                reveal_with_fuel(Seq::<_>::filter, 1);
                assert(expected@.take(0).filter(keep_missing) =~= Seq::<WindowId>::empty());
            }
            while k < expected.len()
                invariant
                    k <= expected@.len(),
                    keep_missing == (|id: WindowId| !known@.contains(id)),
                    ids@ == expected@.take(k as int).filter(keep_missing).to_set(),
                decreases expected@.len() - k,
            {
                proof {
                    lemma_filter_step(expected@, keep_missing, k as int);
                    expected@.take(k as int).filter(keep_missing).lemma_push_to_set_commute(
                        expected@[k as int],
                    );
                }
                if !holds_id(&known, expected[k]) {
                    ids.insert(expected[k]);
                }
                k = k + 1;
            }
            assert(expected@.take(expected@.len() as int) =~= expected@);
            WalkOutcome::Unresolved(ids)
        } else {
            WalkOutcome::Resume
        };
        (changed, outcome)
    }

    /// Takes a fresh read of window `id` of process `pid`: `Some` with the window as it
    /// is now, `None` once it is gone, which drops it. A window not held is left alone.
    pub fn refresh_window(&mut self, pid: i32, id: WindowId, fresh: Option<Window>)
        ensures
            final(self).spaces == old(self).spaces,
            final(self).showing == old(self).showing,
            no_entry(old(self).applications@, pid) ==> final(self).applications
                == old(self).applications,
            forall|i: int|
                #![trigger entry_place(old(self).applications@, pid, i)]
                entry_place(old(self).applications@, pid, i) ==> {
                    let before = old(self).applications@[i].windows@;
                    &&& (forall|x: int| 0 <= x < before.len() ==> (#[trigger] before[x]).id != id)
                        ==> final(self).applications == old(self).applications
                    &&& forall|x: int|
                        #![trigger window_place(before, id, x)]
                        window_place(before, id, x) ==> entry_changed(
                            old(self).applications@,
                            final(self).applications@,
                            i,
                            match fresh {
                                Some(window) => before.update(x, window),
                                None => before.remove(x),
                            },
                            old(self).applications@[i].focused,
                        )
                },
    {
        let i = match self.place_of(pid) {
            Some(i) => i,
            None => return ,
        };
        let x = match place_in(&self.applications[i].windows, id) {
            Some(x) => x,
            None => return ,
        };
        assert forall|y: int| window_place(old(self).applications@[i as int].windows@, id, y) implies y
            == x by {
            if y < x {
                assert(old(self).applications@[i as int].windows@[y].id != id);
            } else if y > x {
                assert(old(self).applications@[i as int].windows@[x as int].id != id);
            }
        }
        let AppEntry { application, windows, focused, badge } = self.applications.remove(i);
        let mut windows = windows;
        match fresh {
            Some(window) => {
                let _ = windows.remove(x);
                windows.insert(x, window);
                assert(windows@ =~= old(self).applications@[i as int].windows@.update(
                    x as int,
                    window,
                ));
            },
            None => {
                let _ = windows.remove(x);
            },
        }
        self.applications.insert(i, AppEntry { application, windows, focused, badge });
        assert forall|j: int| 0 <= j < old(self).applications@.len() && j != i implies self.applications@[j]
            == old(self).applications@[j] by {
            if j < i {
                assert(self.applications@[j] == old(self).applications@.remove(i as int)[j]);
            } else {
                assert(self.applications@[j] == old(self).applications@.remove(i as int)[j - 1]);
            }
        }
    }

    /// Takes the Dock's badges as just read, by bundle path, into every entry. Returns
    /// whether any entry's badge changed.
    pub fn refresh_badges(&mut self, badges: &Vec<(String, String)>) -> (r: bool)
        ensures
            final(self).spaces == old(self).spaces,
            final(self).showing == old(self).showing,
            final(self).applications@.len() == old(self).applications@.len(),
            forall|k: int|
                0 <= k < old(self).applications@.len() ==> {
                    let before = #[trigger] old(self).applications@[k];
                    let after = final(self).applications@[k];
                    &&& after.application == before.application
                    &&& after.windows == before.windows
                    &&& after.focused == before.focused
                    &&& text_of(after.badge) == badge_for(before.application.bundle_path, badges@)
                },
            r == exists|k: int|
                0 <= k < old(self).applications@.len() && text_of(
                    (#[trigger] old(self).applications@[k]).badge,
                ) != badge_for(old(self).applications@[k].application.bundle_path, badges@),
    {
        let ghost before = self.applications@;
        let mut changed = false;
        let n = self.applications.len();
        let mut k: usize = 0;
        while k < n
            invariant
                n == before.len(),
                k <= n,
                self.spaces == old(self).spaces,
                self.showing == old(self).showing,
                self.applications@.len() == n,
                forall|m: int| k <= m < n ==> self.applications@[m] == before[m],
                forall|m: int|
                    0 <= m < k ==> {
                        let was = #[trigger] before[m];
                        let now = self.applications@[m];
                        &&& now.application == was.application
                        &&& now.windows == was.windows
                        &&& now.focused == was.focused
                        &&& text_of(now.badge) == badge_for(was.application.bundle_path, badges@)
                    },
                changed == exists|m: int|
                    0 <= m < k && text_of((#[trigger] before[m]).badge) != badge_for(
                        before[m].application.bundle_path,
                        badges@,
                    ),
            decreases n - k,
        {
            let badge = badge_of(&self.applications[k].application.bundle_path, badges);
            let same = match (&badge, &self.applications[k].badge) {
                (Some(new), Some(held)) => same_text(new.as_str(), held.as_str()),
                (None, None) => true,
                _ => false,
            };
            assert(text_of(badge) == badge_for(before[k as int].application.bundle_path, badges@));
            assert(same == (text_of(before[k as int].badge) == text_of(badge)));
            assert(changed || !same <==> exists|m: int|
                0 <= m < k + 1 && text_of((#[trigger] before[m]).badge) != badge_for(
                    before[m].application.bundle_path,
                    badges@,
                )) by {
                if !same {
                    assert(0 <= k < k + 1 && text_of(before[k as int].badge) != badge_for(
                        before[k as int].application.bundle_path,
                        badges@,
                    ));
                }
            }
            if !same {
                let ghost prior = self.applications@;
                let AppEntry { application, windows, focused, badge: _ } = self.applications.remove(
                    k,
                );
                self.applications.insert(k, AppEntry { application, windows, focused, badge });
                assert(self.applications@ =~= prior.update(k as int, self.applications@[k as int]));
                changed = true;
            }
            k = k + 1;
        }
        changed
    }

    /// Takes which applications are active, as just reported by process, into every
    /// entry; an application the report leaves out keeps what it had.
    pub fn refresh_active(&mut self, active: &Vec<(i32, bool)>)
        ensures
            final(self).spaces == old(self).spaces,
            final(self).showing == old(self).showing,
            final(self).applications@.len() == old(self).applications@.len(),
            forall|k: int|
                0 <= k < old(self).applications@.len() ==> {
                    let before = #[trigger] old(self).applications@[k];
                    let after = final(self).applications@[k];
                    &&& after.windows == before.windows
                    &&& after.focused == before.focused
                    &&& after.badge == before.badge
                    &&& after.application.pid == before.application.pid
                    &&& after.application.bundle_id == before.application.bundle_id
                    &&& after.application.bundle_path == before.application.bundle_path
                    &&& after.application.name == before.application.name
                    &&& after.application.is_hidden == before.application.is_hidden
                    &&& after.application.is_active == match active_in(
                        active@,
                        before.application.pid,
                    ) {
                        Some(is_active) => is_active,
                        None => before.application.is_active,
                    }
                },
    {
        let ghost before = self.applications@;
        let n = self.applications.len();
        let mut k: usize = 0;
        while k < n
            invariant
                n == before.len(),
                k <= n,
                self.spaces == old(self).spaces,
                self.showing == old(self).showing,
                self.applications@.len() == n,
                forall|m: int| k <= m < n ==> self.applications@[m] == before[m],
                forall|m: int|
                    0 <= m < k ==> {
                        let was = #[trigger] before[m];
                        let now = self.applications@[m];
                        &&& now.windows == was.windows
                        &&& now.focused == was.focused
                        &&& now.badge == was.badge
                        &&& now.application.pid == was.application.pid
                        &&& now.application.bundle_id == was.application.bundle_id
                        &&& now.application.bundle_path == was.application.bundle_path
                        &&& now.application.name == was.application.name
                        &&& now.application.is_hidden == was.application.is_hidden
                        &&& now.application.is_active == match active_in(
                            active@,
                            was.application.pid,
                        ) {
                            Some(is_active) => is_active,
                            None => was.application.is_active,
                        }
                    },
            decreases n - k,
        {
            if let Some(is_active) = active_of(active, self.applications[k].application.pid) {
                let ghost prior = self.applications@;
                let AppEntry { application, windows, focused, badge } = self.applications.remove(k);
                let mut application = application;
                application.is_active = is_active;
                self.applications.insert(k, AppEntry { application, windows, focused, badge });
                assert(self.applications@ =~= prior.update(k as int, self.applications@[k as int]));
            }
            k = k + 1;
        }
    }

    /// Takes the applications running now, in the order the workspace reports them,
    /// each with its focused window: an application already listed keeps its windows
    /// and badge, and one that arrived is listed with no windows and the badge the Dock
    /// shows for its bundle path. Returns the processes that arrived, whose windows and
    /// icons are to be read.
    pub fn sync_applications(
        &mut self,
        running: Vec<(Application, Option<WindowId>)>,
        badges: &Vec<(String, String)>,
    ) -> (r: Vec<i32>)
        ensures
            final(self).spaces == old(self).spaces,
            final(self).showing == old(self).showing,
            final(self).applications@.len() == running@.len(),
            forall|k: int|
                #![trigger final(self).applications@[k]]
                0 <= k < running@.len() ==> synced(
                    old(self).applications@,
                    running@,
                    badges@,
                    k,
                    final(self).applications@[k],
                ),
            r@ == arrivals(old(self).applications@, running@, running@.len() as int),
    {
        let ghost before = self.applications@;
        let ghost incoming = running@;
        let mut previous: Vec<AppEntry> = Vec::new();
        std::mem::swap(&mut previous, &mut self.applications);
        let count = previous.len();
        let mut slots: Vec<Option<AppEntry>> = Vec::new();
        let mut i: usize = 0;
        while i < count
            invariant
                count == before.len(),
                i <= count,
                previous@ == before.skip(i as int),
                slots@.len() == i,
                forall|m: int| 0 <= m < i ==> slots@[m] == Some(#[trigger] before[m]),
            decreases count - i,
        {
            let entry = previous.remove(0);
            assert(before.skip(i as int)[0] == before[i as int]);
            assert(before.skip(i + 1) =~= before.skip(i as int).subrange(1, count - i));
            slots.push(Some(entry));
            i = i + 1;
        }
        let mut running = running;
        let n = running.len();
        let mut listed: Vec<AppEntry> = Vec::new();
        let mut seen: Vec<i32> = Vec::new();
        let mut arrived: Vec<i32> = Vec::new();
        let mut k: usize = 0;
        assert(incoming.take(0).map_values(|r: (Application, Option<WindowId>)| r.0.pid) =~= seen@);
        while k < n
            invariant
                n == incoming.len(),
                k <= n,
                count == before.len(),
                running@ == incoming.skip(k as int),
                seen@ == incoming.take(k as int).map_values(
                    |r: (Application, Option<WindowId>)| r.0.pid,
                ),
                slots@.len() == count,
                forall|m: int| 0 <= m < count ==> slot_held(before, seen@, slots@, m),
                listed@.len() == k,
                forall|m: int|
                    0 <= m < k ==> synced(before, incoming, badges@, m, #[trigger] listed@[m]),
                arrived@ == arrivals(before, incoming, k as int),
                self.spaces == old(self).spaces,
                self.showing == old(self).showing,
            decreases n - k,
        {
            let (application, focused) = running.remove(0);
            let focused = focus_of(application.is_active, focused);
            assert(incoming.skip(k as int)[0] == incoming[k as int]);
            assert(running@ =~= incoming.skip(k + 1));
            let pid = application.pid;
            let was_seen = holds_pid(&seen, pid);
            assert(was_seen == seen_before(incoming, k as int)) by {
                if was_seen {
                    let x = choose|x: int| 0 <= x < seen@.len() && seen@[x] == pid;
                    assert(incoming[x].0.pid == pid);
                }
                if seen_before(incoming, k as int) {
                    let x = choose|x: int| 0 <= x < k && (#[trigger] incoming[x]).0.pid == pid;
                    assert(seen@[x] == pid);
                }
            }
            let ghost seen_next = seen@.push(pid);
            let ghost slots_before = slots@;
            let taken = if was_seen {
                None
            } else {
                match last_slot(&slots, pid) {
                    Some(i) => {
                        proof {
                            assert(slot_held(before, seen@, slots@, i as int));
                            assert(before[i as int].application.pid == pid);
                            assert forall|j: int|
                                i < j < count implies (#[trigger] before[j]).application.pid != pid by {
                                assert(slot_held(before, seen@, slots@, j));
                            }
                            assert(last_place(before, pid, i as int));
                        }
                        let slot = slots.remove(i);
                        slots.insert(i, None);
                        slot
                    },
                    None => {
                        assert forall|j: int|
                            0 <= j < count implies (#[trigger] before[j]).application.pid != pid by {
                            assert(slot_held(before, seen@, slots@, j));
                        }
                        None
                    },
                }
            };
            proof {
                assert forall|m: int| 0 <= m < count implies slot_held(before, seen_next, slots@, m) by {
                    let q = before[m].application.pid;
                    if seen_next.contains(q) {
                        let x = choose|x: int| 0 <= x < seen_next.len() && seen_next[x] == q;
                        if x < seen@.len() {
                            assert(seen@[x] == q);
                        }
                    }
                    if seen@.contains(q) {
                        let x = choose|x: int| 0 <= x < seen@.len() && seen@[x] == q;
                        assert(seen_next[x] == q);
                    }
                    if q == pid {
                        assert(seen_next[seen@.len() as int] == q);
                    }
                    assert(seen_next.contains(q) == (seen@.contains(q) || q == pid));
                    assert(slot_held(before, seen@, slots_before, m));
                    if q == pid && !was_seen && last_place(before, pid, m) {
                        assert(taken is Some);
                    }
                }
            }
            let entry = match taken {
                Some(held) => {
                    let AppEntry { application: _, windows, focused: _, badge } = held;
                    AppEntry { application, windows, focused, badge }
                },
                None => {
                    let badge = badge_of(&application.bundle_path, badges);
                    arrived.push(pid);
                    AppEntry { application, windows: Vec::new(), focused, badge }
                },
            };
            listed.push(entry);
            seen.push(pid);
            assert(incoming.take(k + 1).map_values(|r: (Application, Option<WindowId>)| r.0.pid)
                =~= seen@);
            k = k + 1;
        }
        self.applications = listed;
        arrived
    }

    /// Drops every window macOS reported destroyed, given by process and id, from the
    /// entry of its process: the application is back among the windowless ones at once
    /// when it was the last.
    pub fn remove_closed(&mut self, closed: &Vec<(i32, WindowId)>)
        ensures
            final(self).spaces == old(self).spaces,
            final(self).showing == old(self).showing,
            final(self).applications@.len() == old(self).applications@.len(),
            forall|i: int|
                0 <= i < old(self).applications@.len() ==> entry_cleared(
                    old(self).applications@,
                    closed@,
                    i,
                    #[trigger] final(self).applications@[i],
                ),
    {
        let ghost start = self.applications@;
        let n = self.applications.len();
        let mut i: usize = 0;
        while i < n
            invariant
                n == start.len(),
                i <= n,
                start == old(self).applications@,
                self.spaces == old(self).spaces,
                self.showing == old(self).showing,
                self.applications@.len() == n,
                forall|m: int| i <= m < n ==> #[trigger] self.applications@[m] == start[m],
                forall|m: int|
                    0 <= m < i ==> entry_cleared(start, closed@, m, #[trigger] self.applications@[m]),
            decreases n - i,
        {
            let first = first_of_pid(&self.applications, i);
            let ghost prior = self.applications@;
            proof {
                assert(prior[i as int] == start[i as int]);
                assert forall|q: int| 0 <= q < i implies (#[trigger] start[q]).application.pid
                    == prior[q].application.pid by {
                    assert(entry_cleared(start, closed@, q, prior[q]));
                }
                assert(first == entry_place(start, start[i as int].application.pid, i as int));
            }
            if first {
                let pid = self.applications[i].application.pid;
                let AppEntry { application, windows, focused, badge } = self.applications.remove(i);
                let windows = drop_closed(windows, closed, pid);
                self.applications.insert(i, AppEntry { application, windows, focused, badge });
                assert(self.applications@ =~= prior.update(i as int, self.applications@[i as int]));
            }
            assert(entry_cleared(start, closed@, i as int, self.applications@[i as int]));
            i = i + 1;
        }
    }

    /// Takes the window process `pid` types into, as just read, into its entry; an
    /// application that is not active keeps none.
    pub fn set_focused(&mut self, pid: i32, focused: Option<WindowId>)
        ensures
            final(self).spaces == old(self).spaces,
            final(self).showing == old(self).showing,
            no_entry(old(self).applications@, pid) ==> final(self).applications
                == old(self).applications,
            forall|i: int|
                #![trigger entry_place(old(self).applications@, pid, i)]
                entry_place(old(self).applications@, pid, i) ==> entry_changed(
                    old(self).applications@,
                    final(self).applications@,
                    i,
                    old(self).applications@[i].windows@,
                    focus_kept(old(self).applications@[i].application, focused),
                ),
    {
        let i = match self.place_of(pid) {
            Some(i) => i,
            None => return ,
        };
        let ghost prior = self.applications@;
        let AppEntry { application, windows, focused: _, badge } = self.applications.remove(i);
        let focused = focus_of(application.is_active, focused);
        self.applications.insert(i, AppEntry { application, windows, focused, badge });
        assert(self.applications@ =~= prior.update(i as int, self.applications@[i as int]));
    }

    /// The processes listed, in order, for the watcher to follow.
    pub fn pids(&self) -> (r: Vec<i32>)
        ensures
            r@ == self.applications@.map_values(|entry: AppEntry| entry.application.pid),
    {
        let mut pids: Vec<i32> = Vec::new();
        let mut k: usize = 0;
        while k < self.applications.len()
            invariant
                k <= self.applications@.len(),
                pids@ == self.applications@.take(k as int).map_values(
                    |entry: AppEntry| entry.application.pid,
                ),
            decreases self.applications@.len() - k,
        {
            pids.push(self.applications[k].application.pid);
            assert(self.applications@.take(k + 1) =~= self.applications@.take(k as int).push(
                self.applications@[k as int],
            ));
            assert(pids@ =~= self.applications@.take(k + 1).map_values(
                |entry: AppEntry| entry.application.pid,
            ));
            k = k + 1;
        }
        assert(self.applications@.take(self.applications@.len() as int) =~= self.applications@);
        pids
    }

    /// The keys the icons of the applications listed are kept by, in order: the icons
    /// cached under any other key are of applications gone.
    pub fn icon_keys(&self) -> (r: Vec<String>)
        ensures
            r@.len() == self.applications@.len(),
            forall|k: int|
                0 <= k < r@.len() ==> (#[trigger] r@[k])@ == match self.applications@[k].application.bundle_path {
                    Some(path) => path@,
                    None => signed_decimal_text(self.applications@[k].application.pid as int),
                },
    {
        let mut keys: Vec<String> = Vec::new();
        let mut k: usize = 0;
        while k < self.applications.len()
            invariant
                k <= self.applications@.len(),
                keys@.len() == k,
                forall|m: int|
                    0 <= m < k ==> (#[trigger] keys@[m])@ == match self.applications@[m].application.bundle_path {
                        Some(path) => path@,
                        None => signed_decimal_text(self.applications@[m].application.pid as int),
                    },
            decreases self.applications@.len() - k,
        {
            let application = &self.applications[k].application;
            keys.push(icon_key(&application.bundle_path, application.pid));
            k = k + 1;
        }
        keys
    }

    /// The displays the Spaces belong to, each once, in the order first listed: each is
    /// asked which Space it shows.
    pub fn display_uuids(&self) -> (r: Vec<String>)
        ensures
            forall|a: int, b: int| 0 <= a < b < r@.len() ==> (#[trigger] r@[a])@ != (#[trigger] r@[b])@,
            forall|k: int|
                0 <= k < self.spaces@.len() ==> has_text(r@, (#[trigger] self.spaces@[k]).display_uuid@),
            forall|m: int|
                0 <= m < r@.len() ==> shows_display(self.spaces@, self.spaces@.len() as int, (#[trigger] r@[m])@),
    {
        let mut uuids: Vec<String> = Vec::new();
        let mut k: usize = 0;
        while k < self.spaces.len()
            invariant
                k <= self.spaces@.len(),
                forall|a: int, b: int| 0 <= a < b < uuids@.len() ==> (#[trigger] uuids@[a])@ != (#[trigger] uuids@[b])@,
                forall|q: int| 0 <= q < k ==> has_text(uuids@, (#[trigger] self.spaces@[q]).display_uuid@),
                forall|m: int| 0 <= m < uuids@.len() ==> shows_display(self.spaces@, k as int, (#[trigger] uuids@[m])@),
            decreases self.spaces@.len() - k,
        {
            let uuid = &self.spaces[k].display_uuid;
            let mut seen = false;
            let mut m: usize = 0;
            while m < uuids.len()
                invariant
                    m <= uuids@.len(),
                    seen ==> has_text(uuids@, uuid@),
                    !seen ==> forall|q: int| 0 <= q < m ==> (#[trigger] uuids@[q])@ != uuid@,
                decreases uuids@.len() - m,
            {
                if same_text(uuids[m].as_str(), uuid.as_str()) {
                    seen = true;
                }
                m = m + 1;
            }
            let ghost before = uuids@;
            if !seen {
                uuids.push(uuid.clone());
                assert(uuids@[before.len() as int]@ == uuid@);
            }
            assert forall|q: int| 0 <= q < k + 1 implies has_text(uuids@, (#[trigger] self.spaces@[q]).display_uuid@) by {
                if q == k {
                    if !seen {
                        assert(uuids@[before.len() as int]@ == self.spaces@[q].display_uuid@);
                    }
                } else {
                    assert(has_text(before, self.spaces@[q].display_uuid@));
                    let n = choose|n: int| 0 <= n < before.len() && before[n]@ == self.spaces@[q].display_uuid@;
                    assert(uuids@[n] == before[n]);
                }
            }
            assert forall|n: int| 0 <= n < uuids@.len() implies shows_display(self.spaces@, k + 1, (#[trigger] uuids@[n])@) by {
                if n == before.len() {
                    assert(self.spaces@[k as int].display_uuid@ == uuids@[n]@);
                } else {
                    assert(uuids@[n] == before[n]);
                    assert(shows_display(self.spaces@, k as int, before[n]@));
                    let q = choose|q: int| 0 <= q < k && self.spaces@[q].display_uuid@ == before[n]@;
                    assert(0 <= q < k + 1);
                }
            }
            k = k + 1;
        }
        uuids
    }
}


/// Whether the application of process `pid` is active, by the last report of it.
pub fn active_of(active: &Vec<(i32, bool)>, pid: i32) -> (r: Option<bool>)
    ensures
        r == active_in(active@, pid),
{
    let mut k: usize = active.len();
    assert(active@.take(k as int) =~= active@);
    while k > 0
        invariant
            k <= active@.len(),
            active_in(active@, pid) == active_in(active@.take(k as int), pid),
        decreases k,
    {
        assert(active@.take(k as int).drop_last() =~= active@.take(k - 1));
        if active[k - 1].0 == pid {
            return Some(active[k - 1].1);
        }
        k = k - 1;
    }
    None
}

/// Whether some process ids hold `pid`.
pub fn holds_pid(pids: &Vec<i32>, pid: i32) -> (r: bool)
    ensures
        r == pids@.contains(pid),
{
    let mut k: usize = 0;
    while k < pids.len()
        invariant
            k <= pids@.len(),
            forall|m: int| 0 <= m < k ==> pids@[m] != pid,
        decreases pids@.len() - k,
    {
        if pids[k] == pid {
            assert(pids@[k as int] == pid);
            return true;
        }
        k = k + 1;
    }
    false
}

/// Whether a slot holds an entry of process `pid`.
pub open spec fn holds_entry_of(slot: Option<AppEntry>, pid: i32) -> bool {
    match slot {
        Some(entry) => entry.application.pid == pid,
        None => false,
    }
}

/// The last slot that still holds an entry of process `pid`.
fn last_slot(slots: &Vec<Option<AppEntry>>, pid: i32) -> (r: Option<usize>)
    ensures
        match r {
            Some(i) => i < slots@.len() && holds_entry_of(slots@[i as int], pid) && forall|j: int|
                i < j < slots@.len() ==> !holds_entry_of(#[trigger] slots@[j], pid),
            None => forall|j: int| 0 <= j < slots@.len() ==> !holds_entry_of(#[trigger] slots@[j], pid),
        },
{
    let mut i: usize = slots.len();
    while i > 0
        invariant
            i <= slots@.len(),
            forall|j: int| i <= j < slots@.len() ==> !holds_entry_of(#[trigger] slots@[j], pid),
        decreases i,
    {
        match &slots[i - 1] {
            Some(entry) => if entry.application.pid == pid {
                return Some(i - 1);
            },
            None => {},
        }
        i = i - 1;
    }
    None
}

/// Whether a walk over an application's element ids is worth starting after a fresh
/// list: only with accessibility access, when no walk of it is queued, some id is still
/// missing, and not every missing id is one a whole walk did not find before.
pub fn walk_wanted(
    trusted: bool,
    walking: bool,
    missing: &Vec<WindowId>,
    unresolved: Option<&HashSet<WindowId>>,
) -> (r: bool)
    ensures
        r == (trusted && !walking && missing@.len() > 0 && match unresolved {
            Some(ids) => !all_in_set(missing@, ids@),
            None => true,
        }),
{
    let worth = match unresolved {
        Some(ids) => !is_within_set(missing, ids),
        None => true,
    };
    trusted && !walking && missing.len() > 0 && worth
}

/// Whether the window server's list, `want`, says to read an application's windows
/// again: a window it no longer lists was ordered out or closed without a word (a hidden
/// application's excepted, which it does not hold), or one it lists is missing and not
/// among those a whole walk could not find; never while a read of it is queued.
pub open spec fn relist(entry: AppEntry, want: Seq<WindowId>, queued: bool, unresolved: Option<
    Set<WindowId>,
>) -> bool {
    let known = ids_of(entry.windows@);
    let missing = missing_from(want, entry.windows@);
    let stale = !entry.application.is_hidden && !all_within(known, want);
    let settled = match unresolved {
        Some(ids) => all_in_set(missing, ids),
        None => false,
    };
    !queued && (stale || (missing.len() > 0 && !settled))
}

/// An application is read again when the window server lists a window it does not hold
/// and a whole walk did not find missing, while no read of it is queued; it is never read
/// twice at once.
pub proof fn lemma_missing_window_is_listed_again(
    entry: AppEntry,
    want: Seq<WindowId>,
    queued: bool,
    unresolved: Option<Set<WindowId>>,
    id: WindowId,
)
    ensures
        !queued && want.contains(id) && !ids_of(entry.windows@).contains(id) && match unresolved {
            Some(ids) => !ids.contains(id),
            None => true,
        } ==> relist(entry, want, queued, unresolved),
        queued ==> !relist(entry, want, queued, unresolved),
        !queued && !entry.application.is_hidden && ids_of(entry.windows@).contains(id)
            && !want.contains(id) ==> relist(entry, want, queued, unresolved),
{
    if !queued && !entry.application.is_hidden && ids_of(entry.windows@).contains(id)
        && !want.contains(id) {
        let k = choose|k: int| 0 <= k < ids_of(entry.windows@).len() && ids_of(entry.windows@)[k] == id;
        assert(!all_within(ids_of(entry.windows@), want));
    }
    if !queued && want.contains(id) && !ids_of(entry.windows@).contains(id) {
        let keep = |x: WindowId| !ids_of(entry.windows@).contains(x);
        let k = choose|k: int| 0 <= k < want.len() && want[k] == id;
        want.lemma_filter_contains(keep, k);
        let missing = missing_from(want, entry.windows@);
        assert(missing == want.filter(keep));
        assert(missing.contains(id));
        let m = choose|m: int| 0 <= m < missing.len() && missing[m] == id;
        assert(missing.len() > 0);
        match unresolved {
            Some(ids) => {
                if !ids.contains(id) {
                    assert(!ids.contains(missing[m]));
                    assert(!all_in_set(missing, ids));
                }
            },
            None => {},
        }
    }
}

/// Whether to read an application's windows again; see `relist`.
pub fn list_wanted(
    entry: &AppEntry,
    want: &Vec<WindowId>,
    queued: bool,
    unresolved: Option<&HashSet<WindowId>>,
) -> (r: bool)
    ensures
        r == relist(
            *entry,
            want@,
            queued,
            match unresolved {
                Some(ids) => Some(ids@),
                None => None,
            },
        ),
{
    let known = window_ids(&entry.windows);
    let absent = missing(want, &entry.windows);
    let stale = !entry.application.is_hidden && !is_within(&known, want);
    let settled = match unresolved {
        Some(ids) => is_within_set(&absent, ids),
        None => false,
    };
    !queued && (stale || (absent.len() > 0 && !settled))
}

/// Gathers a change macOS reported, to be applied with whatever else arrives in the
/// next moment: each change once.
pub fn gather(changes: &mut Vec<Change>, change: Change)
    ensures
        final(changes)@ == if old(changes)@.contains(change) {
            old(changes)@
        } else {
            old(changes)@.push(change)
        },
{
    let mut k: usize = 0;
    while k < changes.len()
        invariant
            k <= changes@.len(),
            changes@ == old(changes)@,
            forall|m: int| 0 <= m < k ==> changes@[m] != change,
        decreases changes@.len() - k,
    {
        if changes[k] == change {
            assert(changes@[k as int] == change);
            return ;
        }
        k = k + 1;
    }
    changes.push(change);
}

/// Whether a change makes the window server's list worth reading: an application
/// launched, quit or changed, or one opened or closed a window.
pub open spec fn lists(change: Change) -> bool {
    change matches Change::Applications || change matches Change::Windows(_)
}

/// Whether the changes gathered need the window server's list read first.
pub fn needs_list(changes: &Vec<Change>) -> (r: bool)
    ensures
        r == exists|k: int| 0 <= k < changes@.len() && lists(#[trigger] changes@[k]),
{
    let mut k: usize = 0;
    while k < changes.len()
        invariant
            k <= changes@.len(),
            forall|m: int| 0 <= m < k ==> !lists(#[trigger] changes@[m]),
        decreases changes@.len() - k,
    {
        match changes[k] {
            Change::Applications | Change::Windows(_) => {
                assert(lists(changes@[k as int]));
                return true;
            },
            _ => {},
        }
        k = k + 1;
    }
    false
}

} // verus!
