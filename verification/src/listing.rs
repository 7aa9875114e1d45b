//! Which of what macOS reports are windows a person could switch to: the window
//! server's list of every window, grouped by the process that owns it, and the windows
//! an application lists through accessibility.

use vstd::prelude::*;

use crate::desktop::Window;
use crate::space::WindowId;
use crate::text::same_text;
use crate::upkeep::ids_of;

verus! {

/// A window narrower than this, in points, is a tool window or an indicator, not a
/// destination.
pub const MIN_WIDTH: i64 = 100;
/// A window lower than this, in points, is not a destination either.
pub const MIN_HEIGHT: i64 = 50;

/// The accessibility role of a window.
pub const WINDOW_ROLE: &'static str = "AXWindow";
/// The subrole of an ordinary window.
pub const STANDARD_WINDOW: &'static str = "AXStandardWindow";
/// The subrole of a dialog.
pub const DIALOG: &'static str = "AXDialog";

/// The process and id of one entry of the window server's list, from its layer, owner,
/// number and size: an entry at the normal layer, with an owner and a number, of a
/// size a person could use. A size the entry lacks counts as zero.
pub open spec fn server_entry(
    layer: Option<i64>,
    pid: Option<i64>,
    id: Option<i64>,
    width: Option<i64>,
    height: Option<i64>,
) -> Option<(i32, WindowId)> {
    let w = match width {
        Some(w) => w,
        None => 0,
    };
    let h = match height {
        Some(h) => h,
        None => 0,
    };
    if layer != Some(0i64) {
        None
    } else {
        match (pid, id) {
            (Some(p), Some(i)) => if w < MIN_WIDTH || h < MIN_HEIGHT {
                None
            } else {
                Some((p as i32, i as WindowId))
            },
            _ => None,
        }
    }
}

/// One entry of the window server's list, taken if it is a window; see `server_entry`.
pub fn server_window(
    layer: Option<i64>,
    pid: Option<i64>,
    id: Option<i64>,
    width: Option<i64>,
    height: Option<i64>,
) -> (r: Option<(i32, WindowId)>)
    ensures
        r == server_entry(layer, pid, id, width, height),
{
    if layer != Some(0i64) {
        return None;
    }
    let (p, i) = match (pid, id) {
        (Some(p), Some(i)) => (p, i),
        _ => return None,
    };
    let w: i64 = match width {
        Some(w) => w,
        None => 0,
    };
    let h: i64 = match height {
        Some(h) => h,
        None => 0,
    };
    if w < MIN_WIDTH || h < MIN_HEIGHT {
        return None;
    }
    Some((p as i32, i as WindowId))
}

/// The ids the entries give process `pid`.
pub open spec fn ids_for(entries: Seq<(i32, WindowId)>, pid: i32) -> Set<WindowId> {
    Set::new(|id: WindowId| entries.contains((pid, id)))
}

/// Whether no two items are the same.
pub open spec fn distinct<A>(items: Seq<A>) -> bool {
    forall|a: int, b: int| 0 <= a < b < items.len() ==> items[a] != items[b]
}

/// The processes of some groups, in order.
pub open spec fn group_pids(groups: Seq<(i32, Vec<WindowId>)>) -> Seq<i32> {
    groups.map_values(|group: (i32, Vec<WindowId>)| group.0)
}

/// Whether `groups` holds each process of `entries` once, with each of its ids once.
pub open spec fn grouped(groups: Seq<(i32, Vec<WindowId>)>, entries: Seq<(i32, WindowId)>) -> bool {
    &&& forall|a: int, b: int|
        0 <= a < b < groups.len() ==> (#[trigger] groups[a]).0 != (#[trigger] groups[b]).0
    &&& forall|k: int|
        0 <= k < groups.len() ==> {
            let group = #[trigger] groups[k];
            &&& distinct(group.1@)
            &&& group.1@.len() > 0
            &&& group.1@.to_set() == ids_for(entries, group.0)
        }
    &&& forall|j: int|
        0 <= j < entries.len() ==> group_pids(groups).contains(#[trigger] entries[j].0)
}

/// The place of the group of process `pid`.
fn group_of(groups: &Vec<(i32, Vec<WindowId>)>, pid: i32) -> (r: Option<usize>)
    ensures
        match r {
            Some(g) => g < groups@.len() && groups@[g as int].0 == pid && forall|m: int|
                0 <= m < g ==> (#[trigger] groups@[m]).0 != pid,
            None => forall|m: int| 0 <= m < groups@.len() ==> (#[trigger] groups@[m]).0 != pid,
        },
{
    let mut g: usize = 0;
    while g < groups.len()
        invariant
            g <= groups@.len(),
            forall|m: int| 0 <= m < g ==> (#[trigger] groups@[m]).0 != pid,
        decreases groups@.len() - g,
    {
        if groups[g].0 == pid {
            return Some(g);
        }
        g = g + 1;
    }
    None
}

/// Every window the window server holds, by the process that owns it.
pub fn by_process(entries: &Vec<(i32, WindowId)>) -> (r: Vec<(i32, Vec<WindowId>)>)
    ensures
        grouped(r@, entries@),
{
    let mut groups: Vec<(i32, Vec<WindowId>)> = Vec::new();
    let mut k: usize = 0;
    while k < entries.len()
        invariant
            k <= entries@.len(),
            grouped(groups@, entries@.take(k as int)),
        decreases entries@.len() - k,
    {
        let (pid, id) = entries[k];
        let ghost done = entries@.take(k as int);
        let ghost next = entries@.take(k + 1);
        assert(next == done.push((pid, id)));
        assert forall|p: i32| #[trigger] ids_for(next, p) == if p == pid {
            ids_for(done, p).insert(id)
        } else {
            ids_for(done, p)
        } by {
            assert forall|x: WindowId| ids_for(next, p).contains(x) == (if p == pid {
                ids_for(done, p).insert(id)
            } else {
                ids_for(done, p)
            }).contains(x) by {
                if next.contains((p, x)) {
                    let j = choose|j: int| 0 <= j < next.len() && next[j] == (p, x);
                    if j < done.len() {
                        assert(done[j] == (p, x));
                    }
                }
                if done.contains((p, x)) {
                    let j = choose|j: int| 0 <= j < done.len() && done[j] == (p, x);
                    assert(next[j] == (p, x));
                }
                if p == pid && x == id {
                    assert(next[done.len() as int] == (p, x));
                }
            }
            assert(ids_for(next, p) =~= if p == pid {
                ids_for(done, p).insert(id)
            } else {
                ids_for(done, p)
            });
        }
        let found = group_of(&groups, pid);
        if let Some(g) = found {
            let ghost before = groups@;
            let (gpid, ids) = groups.remove(g);
            let mut ids = ids;
            let mut present = false;
            let mut m: usize = 0;
            while m < ids.len()
                invariant
                    m <= ids@.len(),
                    present == exists|q: int| 0 <= q < m && ids@[q] == id,
                decreases ids@.len() - m,
            {
                if ids[m] == id {
                    present = true;
                }
                m = m + 1;
            }
            let ghost old_ids = ids@;
            if !present {
                ids.push(id);
                proof {
                    old_ids.lemma_push_to_set_commute(id);
                }
            } else {
                proof {
                    let q = choose|q: int| 0 <= q < m && old_ids[q] == id;
                    assert(old_ids.to_set().contains(old_ids[q]));
                    assert(old_ids.to_set().insert(id) =~= old_ids.to_set());
                }
            }
            let ghost new_ids = ids@;
            proof {
                assert(distinct(new_ids)) by {
                    assert(distinct(before[g as int].1@));
                    if !present {
                        assert forall|a: int, b: int| 0 <= a < b < new_ids.len() implies new_ids[a]
                            != new_ids[b] by {
                            if b == new_ids.len() - 1 {
                                assert(new_ids[a] == old_ids[a]);
                            } else {
                                assert(new_ids[a] == old_ids[a] && new_ids[b] == old_ids[b]);
                            }
                        }
                    }
                }
            }
            groups.insert(g, (gpid, ids));
            assert forall|j: int| 0 <= j < groups@.len() && j != g implies groups@[j] == before[j] by {}
            assert forall|c: int| 0 <= c < groups@.len() implies {
                let group = #[trigger] groups@[c];
                &&& distinct(group.1@)
                &&& group.1@.len() > 0
                &&& group.1@.to_set() == ids_for(next, group.0)
            } by {
                if c != g {
                    assert(groups@[c] == before[c]);
                    assert(before[c].0 != before[g as int].0);
                    assert(ids_for(next, before[c].0) == ids_for(done, before[c].0));
                } else {
                    assert(ids_for(next, pid) == ids_for(done, pid).insert(id));
                }
            }
            assert forall|j: int| 0 <= j < next.len() implies group_pids(groups@).contains(
                #[trigger] next[j].0,
            ) by {
                if j < done.len() {
                    assert(done[j] == next[j]);
                    let q = choose|q: int| 0 <= q < before.len() && group_pids(before)[q] == done[j].0;
                    assert(group_pids(groups@)[q] == next[j].0);
                } else {
                    assert(group_pids(groups@)[g as int] == next[j].0);
                }
            }
            assert forall|a: int, b: int|
                0 <= a < b < groups@.len() implies (#[trigger] groups@[a]).0 != (
                #[trigger] groups@[b]).0 by {
                assert(before[a].0 != before[b].0);
            }
            assert(grouped(groups@, next));
        } else {
            let ghost before = groups@;
            let mut ids: Vec<WindowId> = Vec::new();
            ids.push(id);
            proof {
                Seq::<WindowId>::empty().lemma_push_to_set_commute(id);
                assert(ids@ == Seq::<WindowId>::empty().push(id));
                assert(Seq::<WindowId>::empty().to_set() =~= Set::<WindowId>::empty());
            }
            assert(ids_for(done, pid) =~= Set::<WindowId>::empty()) by {
                assert forall|x: WindowId| !ids_for(done, pid).contains(x) by {
                    if done.contains((pid, x)) {
                        let j = choose|j: int| 0 <= j < done.len() && done[j] == (pid, x);
                        assert(group_pids(before).contains(done[j].0));
                        let q = choose|q: int| 0 <= q < before.len() && group_pids(before)[q] == pid;
                        assert(before[q].0 != pid);
                    }
                }
            }
            groups.push((pid, ids));
            assert forall|j: int| 0 <= j < next.len() implies group_pids(groups@).contains(
                #[trigger] next[j].0,
            ) by {
                if j < done.len() {
                    assert(done[j] == next[j]);
                    let q = choose|q: int| 0 <= q < before.len() && group_pids(before)[q] == done[j].0;
                    assert(group_pids(groups@)[q] == next[j].0);
                } else {
                    assert(group_pids(groups@)[before.len() as int] == next[j].0);
                }
            }
            assert forall|a: int, b: int|
                0 <= a < b < groups@.len() implies (#[trigger] groups@[a]).0 != (
                #[trigger] groups@[b]).0 by {
                if b < before.len() {
                    assert(before[a].0 != before[b].0);
                } else {
                    assert(groups@[a] == before[a]);
                }
            }
            assert forall|c: int| 0 <= c < groups@.len() implies {
                let group = #[trigger] groups@[c];
                &&& distinct(group.1@)
                &&& group.1@.len() > 0
                &&& group.1@.to_set() == ids_for(next, group.0)
            } by {
                if c < before.len() {
                    assert(groups@[c] == before[c]);
                    assert(ids_for(next, before[c].0) == ids_for(done, before[c].0));
                } else {
                    assert(ids_for(next, pid) == ids_for(done, pid).insert(id));
                }
            }
            assert(grouped(groups@, next));
        }
        k = k + 1;
    }
    assert(entries@.take(entries@.len() as int) =~= entries@);
    groups
}

/// The ids the window server holds for process `pid`: those of its group, none when
/// it has none.
pub fn expected_for(groups: &Vec<(i32, Vec<WindowId>)>, pid: i32) -> (r: Vec<WindowId>)
    ensures
        match group_index(groups@, pid) {
            Some(g) => r@ == groups@[g].1@,
            None => r@.len() == 0,
        },
{
    match group_of(groups, pid) {
        Some(g) => {
            proof {
                assert(group_index(groups@, pid) == Some(g as int)) by {
                    lemma_group_index(groups@, pid, g as int);
                }
            }
            let ids = &groups[g].1;
            let mut copy: Vec<WindowId> = Vec::new();
            let mut k: usize = 0;
            while k < ids.len()
                invariant
                    k <= ids@.len(),
                    copy@ == ids@.take(k as int),
                decreases ids@.len() - k,
            {
                copy.push(ids[k]);
                assert(ids@.take(k + 1) =~= ids@.take(k as int).push(ids@[k as int]));
                k = k + 1;
            }
            assert(ids@.take(ids@.len() as int) =~= ids@);
            copy
        },
        None => {
            proof {
                lemma_no_group_index(groups@, pid);
            }
            Vec::new()
        },
    }
}

/// The place of the first group of process `pid`, by `group_index`.
pub fn group_place(groups: &Vec<(i32, Vec<WindowId>)>, pid: i32) -> (r: Option<usize>)
    ensures
        match r {
            Some(g) => group_index(groups@, pid) == Some(g as int) && g < groups@.len(),
            None => group_index(groups@, pid) is None,
        },
{
    match group_of(groups, pid) {
        Some(g) => {
            proof {
                lemma_group_index(groups@, pid, g as int);
            }
            Some(g)
        },
        None => {
            proof {
                lemma_no_group_index(groups@, pid);
            }
            None
        },
    }
}

/// The place of the first group of process `pid`.
pub open spec fn group_index(groups: Seq<(i32, Vec<WindowId>)>, pid: i32) -> Option<int>
    decreases groups.len(),
{
    if groups.len() == 0 {
        None
    } else if groups[0].0 == pid {
        Some(0)
    } else {
        match group_index(groups.drop_first(), pid) {
            Some(g) => Some(g + 1),
            None => None,
        }
    }
}

/// The place of a process's first group is one of the groups, and of that process.
pub proof fn lemma_group_index_bounds(groups: Seq<(i32, Vec<WindowId>)>, pid: i32)
    ensures
        group_index(groups, pid) matches Some(g) ==> 0 <= g < groups.len() && groups[g].0 == pid,
    decreases groups.len(),
{
    if groups.len() > 0 && groups[0].0 != pid {
        lemma_group_index_bounds(groups.drop_first(), pid);
    }
}

proof fn lemma_group_index(groups: Seq<(i32, Vec<WindowId>)>, pid: i32, g: int)
    requires
        0 <= g < groups.len(),
        groups[g].0 == pid,
        forall|m: int| 0 <= m < g ==> (#[trigger] groups[m]).0 != pid,
    ensures
        group_index(groups, pid) == Some(g),
    decreases g,
{
    if g > 0 {
        assert(groups[0].0 != pid);
        lemma_group_index(groups.drop_first(), pid, g - 1);
    }
}

proof fn lemma_no_group_index(groups: Seq<(i32, Vec<WindowId>)>, pid: i32)
    requires
        forall|m: int| 0 <= m < groups.len() ==> (#[trigger] groups[m]).0 != pid,
    ensures
        group_index(groups, pid) is None,
    decreases groups.len(),
{
    if groups.len() > 0 {
        assert(groups[0].0 != pid);
        assert forall|m: int| 0 <= m < groups.drop_first().len() implies (
        #[trigger] groups.drop_first()[m]).0 != pid by {
            assert(groups.drop_first()[m] == groups[m + 1]);
        }
        lemma_no_group_index(groups.drop_first(), pid);
    }
}

/// Whether an accessibility element with this role and subrole is a window a person
/// could switch to: a window whose subrole marks an ordinary window or a dialog, or that
/// has no subrole at all, which applications that set one use to mark the windows that
/// are not.
pub open spec fn switchable_role(role: Option<Seq<char>>, subrole: Option<Seq<char>>) -> bool {
    &&& role == Some(WINDOW_ROLE@)
    &&& match subrole {
        Some(sub) => sub == STANDARD_WINDOW@ || sub == DIALOG@,
        None => true,
    }
}

/// Whether an element with this role and subrole is a window; see `switchable_role`.
pub fn is_window_role(role: Option<&str>, subrole: Option<&str>) -> (r: bool)
    ensures
        r == switchable_role(
            match role {
                Some(text) => Some(text@),
                None => None,
            },
            match subrole {
                Some(text) => Some(text@),
                None => None,
            },
        ),
{
    let is_window = match role {
        Some(text) => same_text(text, WINDOW_ROLE),
        None => false,
    };
    if !is_window {
        return false;
    }
    match subrole {
        Some(text) => same_text(text, STANDARD_WINDOW) || same_text(text, DIALOG),
        None => true,
    }
}

/// The windows of a list with the first of each id kept and later ones dropped.
pub open spec fn first_of_each(windows: Seq<Window>) -> Seq<Window>
    decreases windows.len(),
{
    if windows.len() == 0 {
        windows
    } else if ids_of(windows.drop_last()).contains(windows.last().id) {
        first_of_each(windows.drop_last())
    } else {
        first_of_each(windows.drop_last()).push(windows.last())
    }
}

/// The windows a process lists, each once: an application may list a window twice.
pub fn distinct_windows(listed: Vec<Window>) -> (r: Vec<Window>)
    ensures
        r@ == first_of_each(listed@),
{
    let ghost first = listed@;
    let mut listed = listed;
    let mut seen: Vec<WindowId> = Vec::new();
    let mut kept: Vec<Window> = Vec::new();
    let n = listed.len();
    let mut k: usize = 0;
    while k < n
        invariant
            n == first.len(),
            k <= n,
            listed@ == first.skip(k as int),
            seen@ == ids_of(first.take(k as int)),
            kept@ == first_of_each(first.take(k as int)),
        decreases n - k,
    {
        let window = listed.remove(0);
        assert(first.skip(k as int)[0] == first[k as int]);
        assert(first.skip(k + 1) =~= first.skip(k as int).subrange(1, n - k));
        assert(first.take(k + 1).drop_last() =~= first.take(k as int));
        let mut present = false;
        let mut m: usize = 0;
        while m < seen.len()
            invariant
                m <= seen@.len(),
                present == exists|q: int| 0 <= q < m && seen@[q] == window.id,
            decreases seen@.len() - m,
        {
            if seen[m] == window.id {
                present = true;
            }
            m = m + 1;
        }
        assert(present == seen@.contains(window.id));
        let id = window.id;
        if !present {
            kept.push(window);
        }
        seen.push(id);
        assert(ids_of(first.take(k + 1)) =~= ids_of(first.take(k as int)).push(id));
        k = k + 1;
    }
    assert(first.take(n as int) =~= first);
    kept
}

} // verus!
