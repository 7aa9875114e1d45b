//! The reads of the desktop still to do, done a slice at a time: a queue of jobs, the
//! windows a whole walk did not find for each process, and the processes that answered
//! too slowly to be asked again for a while. Doing a read is the app's; which read comes
//! next, and what its outcome leaves to do, is decided here. Times are in milliseconds of
//! a clock that does not go back.

use std::collections::{HashMap, HashSet, VecDeque};

use vstd::prelude::*;

use crate::desktop::{AppEntry, Application, Desktop};
use crate::listing::{distinct, expected_for, group_index, lemma_group_index_bounds};
use crate::space::{Change, WindowId};
use crate::desktop::Window;
use crate::upkeep::{
    entry_changed, entry_place, focus_kept, merged, missing_from, no_entry, synced, arrivals,
    all_in_set, entry_cleared, ids_of, list_wanted, not_closed, relist, walk_wanted, WalkOutcome,
};

verus! {

broadcast use vstd::std_specs::hash::group_hash_axioms;

/// A process whose listing took longer than this is busy or stuck.
pub const SLOW: u64 = 150;
/// How long a slow process is left alone.
pub const SLOW_REST: u64 = 30_000;
/// How long one turn may spend reading applications.
pub const SLICE: u64 = 8;

/// Whether a slice begun at `started` is spent at `now`: the reads left wait for the
/// next turn.
pub fn slice_spent(started: u64, now: u64) -> (r: bool)
    ensures
        r == (now >= started && now - started >= SLICE),
{
    now >= started && now - started >= SLICE
}

/// What is left at `now` of a slice begun at `started`, for one step of a walk: none
/// once it is spent.
pub fn slice_left(started: u64, now: u64) -> (r: u64)
    ensures
        r == if now <= started {
            SLICE
        } else if now - started >= SLICE {
            0
        } else {
            (SLICE - (now - started)) as u64
        },
{
    if now <= started {
        SLICE
    } else if now - started >= SLICE {
        0
    } else {
        SLICE - (now - started)
    }
}

/// One read of the desktop still to do.
pub enum Job {
    /// The windows an application lists; `expected` is what the window server holds for
    /// it, and what is still missing afterwards is walked for.
    List { pid: i32, expected: Vec<WindowId> },
    /// The walk over an application's element ids, resumed from `cursor` until
    /// `expected` is accounted for or the ids run out.
    Walk { pid: i32, expected: Vec<WindowId>, cursor: u64 },
    /// The application's icon.
    Icon(i32),
}

/// Whether a job reads process `pid`'s windows.
pub open spec fn reads_windows_of(job: Job, pid: i32) -> bool {
    match job {
        Job::List { pid: p, .. } => p == pid,
        Job::Walk { pid: p, .. } => p == pid,
        Job::Icon(_) => false,
    }
}

/// Whether a job walks process `pid`'s element ids.
pub open spec fn walks(job: Job, pid: i32) -> bool {
    match job {
        Job::Walk { pid: p, .. } => p == pid,
        _ => false,
    }
}

/// Whether a job is a listing of a process resting after a slow answer at `now`, which
/// is dropped.
pub open spec fn skipped(job: Job, slow: Map<i32, u64>, now: u64) -> bool {
    match job {
        Job::List { pid, .. } => slow.contains_key(pid) && now < slow[pid],
        _ => false,
    }
}

/// Whether a job lists process `pid`'s windows with `ids` expected.
pub open spec fn lists_with(job: Job, pid: i32, ids: Seq<WindowId>) -> bool {
    match job {
        Job::List { pid: p, expected } => p == pid && expected@ == ids,
        _ => false,
    }
}

/// The ids the window server holds for process `pid`, by its group.
pub open spec fn expected_of(groups: Seq<(i32, Vec<WindowId>)>, pid: i32) -> Seq<WindowId> {
    match group_index(groups, pid) {
        Some(g) => groups[g].1@,
        None => Seq::empty(),
    }
}

/// The ids of a process a whole walk did not find.
pub open spec fn unresolved_ids(unresolved: Map<i32, HashSet<WindowId>>, pid: i32) -> Option<Set<WindowId>> {
    if unresolved.contains_key(pid) {
        Some(unresolved[pid]@)
    } else {
        None
    }
}

/// The listings a comparison with the window server's list queues, by process and ids
/// expected, after the first `n` entries: an entry the list holds is listed again when
/// `relist` says so, a read of it queued before or by an earlier entry counting as
/// queued.
pub open spec fn relisted(
    queue: Seq<Job>,
    unresolved: Map<i32, HashSet<WindowId>>,
    applications: Seq<AppEntry>,
    groups: Seq<(i32, Vec<WindowId>)>,
    n: int,
) -> Seq<(i32, Seq<WindowId>)>
    decreases n,
{
    if n <= 0 {
        Seq::empty()
    } else {
        let earlier = relisted(queue, unresolved, applications, groups, n - 1);
        let entry = applications[n - 1];
        let pid = entry.application.pid;
        match group_index(groups, pid) {
            None => earlier,
            Some(g) => {
                let queued = (exists|k: int|
                    0 <= k < queue.len() && reads_windows_of(#[trigger] queue[k], pid)) || exists|
                    k: int,
                | 0 <= k < earlier.len() && (#[trigger] earlier[k]).0 == pid;
                if relist(entry, groups[g].1@, queued, unresolved_ids(unresolved, pid)) {
                    earlier.push((pid, groups[g].1@))
                } else {
                    earlier
                }
            },
        }
    }
}

/// Whether a job's expected ids hold no id twice, as a set of them does.
pub open spec fn ids_once(job: Job) -> bool {
    match job {
        Job::List { expected, .. } => distinct(expected@),
        Job::Walk { expected, .. } => distinct(expected@),
        Job::Icon(_) => true,
    }
}

/// Whether each group's ids hold no id twice, as a set of them does.
pub open spec fn groups_once(groups: Seq<(i32, Vec<WindowId>)>) -> bool {
    forall|g: int| 0 <= g < groups.len() ==> distinct(#[trigger] groups[g].1@)
}

/// The ids a group holds hold no id twice when every group's do.
proof fn lemma_expected_once(groups: Seq<(i32, Vec<WindowId>)>, pid: i32)
    requires
        groups_once(groups),
    ensures
        distinct(expected_of(groups, pid)),
{
    lemma_group_index_bounds(groups, pid);
}

/// The reads still to do.
pub struct Jobs {
    /// The jobs, first to do first.
    pub queue: VecDeque<Job>,
    /// For each process, the ids the window server holds that a whole walk did not find:
    /// windows accessibility never shows, not to be walked for again until its list
    /// changes.
    pub unresolved: HashMap<i32, HashSet<WindowId>>,
    /// For each process that answered late, when it may be asked again.
    pub slow: HashMap<i32, u64>,
}

impl Jobs {
    /// Whether every set of ids the jobs hold holds no id twice.
    pub open spec fn wf(self) -> bool {
        forall|k: int| 0 <= k < self.queue@.len() ==> ids_once(#[trigger] self.queue@[k])
    }

    /// Nothing to do.
    pub fn new() -> (r: Jobs)
        ensures
            r.wf(),
            r.queue@.len() == 0,
            r.unresolved@ == Map::<i32, HashSet<WindowId>>::empty(),
            r.slow@ == Map::<i32, u64>::empty(),
    {
        Jobs { queue: VecDeque::new(), unresolved: HashMap::new(), slow: HashMap::new() }
    }

    /// Queues a listing of process `pid`'s windows, with the ids the window server holds
    /// for it.
    pub fn push_list(&mut self, pid: i32, expected: Vec<WindowId>)
        requires
            old(self).wf(),
            distinct(expected@),
        ensures
            final(self).wf(),
            final(self).queue@ == old(self).queue@.push(Job::List { pid, expected }),
            final(self).unresolved@ == old(self).unresolved@,
            final(self).slow@ == old(self).slow@,
    {
        self.queue.push_back(Job::List { pid, expected });
    }

    /// Queues a walk over process `pid`'s element ids from the first, once a listing left
    /// ids of `expected` unaccounted for.
    pub fn push_walk(&mut self, pid: i32, expected: Vec<WindowId>)
        requires
            old(self).wf(),
            distinct(expected@),
        ensures
            final(self).wf(),
            final(self).queue@ == old(self).queue@.push(Job::Walk { pid, expected, cursor: 0 }),
            final(self).unresolved@ == old(self).unresolved@,
            final(self).slow@ == old(self).slow@,
    {
        self.queue.push_back(Job::Walk { pid, expected, cursor: 0 });
    }

    /// Queues reading process `pid`'s icon.
    pub fn push_icon(&mut self, pid: i32)
        requires
            old(self).wf(),
        ensures
            final(self).wf(),
            final(self).queue@ == old(self).queue@.push(Job::Icon(pid)),
            final(self).unresolved@ == old(self).unresolved@,
            final(self).slow@ == old(self).slow@,
    {
        self.queue.push_back(Job::Icon(pid));
    }

    /// Whether a walk of process `pid` is queued.
    pub fn is_walking(&self, pid: i32) -> (r: bool)
        ensures
            r == exists|k: int| 0 <= k < self.queue@.len() && walks(#[trigger] self.queue@[k], pid),
    {
        let mut k: usize = 0;
        while k < self.queue.len()
            invariant
                k <= self.queue@.len(),
                forall|m: int| 0 <= m < k ==> !walks(#[trigger] self.queue@[m], pid),
            decreases self.queue@.len() - k,
        {
            match &self.queue[k] {
                Job::Walk { pid: p, .. } => if *p == pid {
                    assert(walks(self.queue@[k as int], pid));
                    return true;
                },
                _ => {},
            }
            k = k + 1;
        }
        false
    }

    /// Whether a read of process `pid`'s windows, a listing or a walk, is queued.
    pub fn is_queued(&self, pid: i32) -> (r: bool)
        ensures
            r == exists|k: int|
                0 <= k < self.queue@.len() && reads_windows_of(#[trigger] self.queue@[k], pid),
    {
        let mut k: usize = 0;
        while k < self.queue.len()
            invariant
                k <= self.queue@.len(),
                forall|m: int| 0 <= m < k ==> !reads_windows_of(#[trigger] self.queue@[m], pid),
            decreases self.queue@.len() - k,
        {
            let reads = match &self.queue[k] {
                Job::List { pid: p, .. } => *p == pid,
                Job::Walk { pid: p, .. } => *p == pid,
                Job::Icon(_) => false,
            };
            if reads {
                assert(reads_windows_of(self.queue@[k as int], pid));
                return true;
            }
            k = k + 1;
        }
        false
    }

    /// The ids a whole walk of process `pid` did not find, if it had one.
    pub fn unresolved_of(&self, pid: i32) -> (r: Option<&HashSet<WindowId>>)
        ensures
            match r {
                Some(ids) => self.unresolved@.contains_key(pid) && self.unresolved@[pid] == *ids,
                None => !self.unresolved@.contains_key(pid),
            },
    {
        self.unresolved.get(&pid)
    }

    /// The next job to do at `now`, taken off the queue: listings of processes resting
    /// after a slow answer are dropped on the way; `None` once the queue runs out.
    pub fn next(&mut self, now: u64) -> (r: Option<Job>)
        requires
            old(self).wf(),
        ensures
            final(self).wf(),
            r matches Some(job) ==> ids_once(job),
            final(self).unresolved@ == old(self).unresolved@,
            final(self).slow@ == old(self).slow@,
            match r {
                Some(job) => exists|k: int|
                    0 <= k < old(self).queue@.len() && old(self).queue@[k] == job && !skipped(
                        job,
                        old(self).slow@,
                        now,
                    ) && (forall|m: int|
                        0 <= m < k ==> skipped(#[trigger] old(self).queue@[m], old(self).slow@, now))
                        && final(self).queue@ == old(self).queue@.skip(k + 1),
                None => final(self).queue@.len() == 0 && forall|m: int|
                    0 <= m < old(self).queue@.len() ==> skipped(
                        #[trigger] old(self).queue@[m],
                        old(self).slow@,
                        now,
                    ),
            },
    {
        let ghost start = self.queue@;
        let count = self.queue.len();
        let mut dropped: usize = 0;
        while self.queue.len() > 0
            invariant
                start == old(self).queue@,
                old(self).wf(),
                forall|m: int| 0 <= m < start.len() ==> ids_once(#[trigger] start[m]),
                self.wf(),
                start.len() == count,
                dropped <= start.len(),
                self.queue@.len() == start.len() - dropped,
                self.queue@ == start.skip(dropped as int),
                self.unresolved@ == old(self).unresolved@,
                self.slow@ == old(self).slow@,
                forall|m: int| 0 <= m < dropped ==> skipped(#[trigger] start[m], self.slow@, now),
            decreases self.queue@.len(),
        {
            let job = match self.queue.pop_front() {
                Some(job) => job,
                None => return None,
            };
            assert(start.skip(dropped as int)[0] == start[dropped as int]);
            assert(self.queue@ =~= start.skip(dropped + 1));
            let skip = match &job {
                Job::List { pid, .. } => match self.slow.get(pid) {
                    Some(until) => now < *until,
                    None => false,
                },
                _ => false,
            };
            assert(skip == skipped(job, self.slow@, now));
            assert(start[dropped as int] == job);
            if !skip {
                assert(0 <= dropped < start.len() && start[dropped as int] == job);
                assert(self.queue@ == old(self).queue@.skip(dropped + 1));
                assert(ids_once(start[dropped as int]));
                assert forall|k: int| 0 <= k < self.queue@.len() implies ids_once(#[trigger] self.queue@[k]) by {
                    assert(self.queue@[k] == start[dropped + 1 + k]);
                }
                return Some(job);
            }
            dropped = dropped + 1;
        }
        None
    }

    /// Takes how long a listing of process `pid` took, asked at `asked` and answered at
    /// `now`: a process that took longer than `SLOW` rests for `SLOW_REST`.
    pub fn listed(&mut self, pid: i32, asked: u64, now: u64)
        requires
            now <= u64::MAX - SLOW_REST,
            old(self).wf(),
        ensures
            final(self).wf(),
            final(self).queue@ == old(self).queue@,
            final(self).unresolved@ == old(self).unresolved@,
            final(self).slow@ == if now > asked && now - asked > SLOW {
                old(self).slow@.insert(pid, (now + SLOW_REST) as u64)
            } else {
                old(self).slow@
            },
    {
        if now > asked && now - asked > SLOW {
            self.slow.insert(pid, now + SLOW_REST);
        }
    }

    /// Takes what one step of a walk of process `pid` left to do, from `cursor`: a walk
    /// that accounted for every window forgets what it could not find before, one that
    /// ran out records what it did not find, and one with ids left goes back at the
    /// front of the queue. Returns whether the slice ends here, to resume next turn.
    pub fn walked(
        &mut self,
        pid: i32,
        expected: Vec<WindowId>,
        cursor: u64,
        outcome: WalkOutcome,
    ) -> (r: bool)
        requires
            old(self).wf(),
            distinct(expected@),
        ensures
            final(self).wf(),
            final(self).slow@ == old(self).slow@,
            match outcome {
                WalkOutcome::Settled => {
                    &&& !r
                    &&& final(self).queue@ == old(self).queue@
                    &&& final(self).unresolved@ == old(self).unresolved@.remove(pid)
                },
                WalkOutcome::Unresolved(ids) => {
                    &&& !r
                    &&& final(self).queue@ == old(self).queue@
                    &&& final(self).unresolved@ == old(self).unresolved@.insert(pid, ids)
                },
                WalkOutcome::Resume => {
                    &&& r
                    &&& final(self).queue@ == seq![Job::Walk { pid, expected, cursor }]
                        + old(self).queue@
                    &&& final(self).unresolved@ == old(self).unresolved@
                },
            },
    {
        match outcome {
            WalkOutcome::Settled => {
                let _ = self.unresolved.remove(&pid);
                false
            },
            WalkOutcome::Unresolved(ids) => {
                let _ = self.unresolved.insert(pid, ids);
                false
            },
            WalkOutcome::Resume => {
                self.queue.push_front(Job::Walk { pid, expected, cursor });
                assert(self.queue@ =~= seq![Job::Walk { pid, expected, cursor }] + old(
                    self,
                ).queue@);
                true
            },
        }
    }

    /// Forgets what was recorded of processes no longer running: only those in `living`
    /// keep their unresolved ids and their rest.
    pub fn forget_gone(&mut self, living: &Vec<i32>)
        requires
            old(self).wf(),
        ensures
            final(self).wf(),
            final(self).queue@ == old(self).queue@,
            final(self).unresolved@ == old(self).unresolved@.restrict(living@.to_set()),
            final(self).slow@ == old(self).slow@.restrict(living@.to_set()),
    {
        let mut unresolved: HashMap<i32, HashSet<WindowId>> = HashMap::new();
        let mut slow: HashMap<i32, u64> = HashMap::new();
        let ghost first_unresolved = self.unresolved@;
        let ghost first_slow = self.slow@;
        let mut k: usize = 0;
        while k < living.len()
            invariant
                k <= living@.len(),
                self.queue@ == old(self).queue@,
                first_unresolved == old(self).unresolved@,
                first_slow == old(self).slow@,
                unresolved@ == first_unresolved.restrict(living@.take(k as int).to_set()),
                self.unresolved@ == first_unresolved.remove_keys(living@.take(k as int).to_set()),
                slow@ == first_slow.restrict(living@.take(k as int).to_set()),
                self.slow@ == first_slow.remove_keys(living@.take(k as int).to_set()),
            decreases living@.len() - k,
        {
            let pid = living[k];
            let ghost seen = living@.take(k as int).to_set();
            let ghost next = living@.take(k + 1).to_set();
            assert(living@.take(k + 1) == living@.take(k as int).push(pid));
            proof {
                living@.take(k as int).lemma_push_to_set_commute(pid);
            }
            assert(next == seen.insert(pid));
            match self.unresolved.remove(&pid) {
                Some(ids) => {
                    unresolved.insert(pid, ids);
                },
                None => {},
            }
            match self.slow.remove(&pid) {
                Some(until) => {
                    slow.insert(pid, until);
                },
                None => {},
            }
            assert(unresolved@ =~= first_unresolved.restrict(next));
            assert(self.unresolved@ =~= first_unresolved.remove_keys(next));
            assert(slow@ =~= first_slow.restrict(next));
            assert(self.slow@ =~= first_slow.remove_keys(next));
            k = k + 1;
        }
        assert(living@.take(living@.len() as int) =~= living@);
        self.unresolved = unresolved;
        self.slow = slow;
    }

    /// Whether reads are left for the next turn.
    pub fn more(&self) -> (r: bool)
        ensures
            r == (self.queue@.len() > 0),
    {
        self.queue.len() > 0
    }

    /// After a listing of process `pid` left `missing` unaccounted for, queues a walk
    /// over its element ids when one is worth it (see `walk_wanted`), with accessibility
    /// access `trusted`. Returns whether one was queued.
    pub fn after_listing(
        &mut self,
        trusted: bool,
        pid: i32,
        expected: Vec<WindowId>,
        missing: &Vec<WindowId>,
    ) -> (r: bool)
        requires
            old(self).wf(),
            distinct(expected@),
        ensures
            final(self).wf(),
            r == (trusted && !(exists|k: int|
                0 <= k < old(self).queue@.len() && walks(#[trigger] old(self).queue@[k], pid))
                && missing@.len() > 0 && match unresolved_ids(old(self).unresolved@, pid) {
                Some(ids) => !all_in_set(missing@, ids),
                None => true,
            }),
            final(self).queue@ == if r {
                old(self).queue@.push(Job::Walk { pid, expected, cursor: 0 })
            } else {
                old(self).queue@
            },
            final(self).unresolved@ == old(self).unresolved@,
            final(self).slow@ == old(self).slow@,
    {
        let walking = self.is_walking(pid);
        let wanted = walk_wanted(trusted, walking, missing, self.unresolved_of(pid));
        if wanted {
            self.push_walk(pid, expected);
        }
        wanted
    }

    /// Queues, for each process that arrived, a listing of its windows with the ids the
    /// window server holds for it, then its icon.
    pub fn queue_arrivals(&mut self, arrived: &Vec<i32>, groups: &Vec<(i32, Vec<WindowId>)>)
        requires
            old(self).wf(),
            groups_once(groups@),
        ensures
            final(self).wf(),
            final(self).unresolved@ == old(self).unresolved@,
            final(self).slow@ == old(self).slow@,
            final(self).queue@.len() == old(self).queue@.len() + 2 * arrived@.len(),
            forall|m: int|
                0 <= m < old(self).queue@.len() ==> #[trigger] final(self).queue@[m]
                    == old(self).queue@[m],
            forall|i: int|
                0 <= i < arrived@.len() ==> {
                    &&& lists_with(
                        #[trigger] final(self).queue@[old(self).queue@.len() + 2 * i],
                        arrived@[i],
                        expected_of(groups@, arrived@[i]),
                    )
                    &&& final(self).queue@[old(self).queue@.len() + 2 * i + 1] == Job::Icon(
                        arrived@[i],
                    )
                },
    {
        let ghost start = self.queue@;
        let mut i: usize = 0;
        while i < arrived.len()
            invariant
                i <= arrived@.len(),
                start == old(self).queue@,
                self.wf(),
                groups_once(groups@),
                self.unresolved@ == old(self).unresolved@,
                self.slow@ == old(self).slow@,
                self.queue@.len() == start.len() + 2 * i,
                forall|m: int| 0 <= m < start.len() ==> #[trigger] self.queue@[m] == start[m],
                forall|q: int|
                    0 <= q < i ==> {
                        &&& lists_with(
                            #[trigger] self.queue@[start.len() + 2 * q],
                            arrived@[q],
                            expected_of(groups@, arrived@[q]),
                        )
                        &&& self.queue@[start.len() + 2 * q + 1] == Job::Icon(arrived@[q])
                    },
            decreases arrived@.len() - i,
        {
            let pid = arrived[i];
            let expected = expected_for(groups, pid);
            assert(expected@ =~= expected_of(groups@, pid));
            proof {
                lemma_expected_once(groups@, pid);
            }
            self.push_list(pid, expected);
            self.push_icon(pid);
            assert(lists_with(self.queue@[start.len() + 2 * i], pid, expected_of(groups@, pid)));
            i = i + 1;
        }
    }

    /// Queues a listing of every application's windows, as a fresh look at the desktop
    /// does, with the ids the window server holds for each.
    pub fn relist_all(&mut self, applications: &Vec<AppEntry>, groups: &Vec<(i32, Vec<WindowId>)>)
        requires
            old(self).wf(),
            groups_once(groups@),
        ensures
            final(self).wf(),
            final(self).unresolved@ == old(self).unresolved@,
            final(self).slow@ == old(self).slow@,
            final(self).queue@.len() == old(self).queue@.len() + applications@.len(),
            forall|m: int|
                0 <= m < old(self).queue@.len() ==> #[trigger] final(self).queue@[m]
                    == old(self).queue@[m],
            forall|i: int|
                0 <= i < applications@.len() ==> lists_with(
                    #[trigger] final(self).queue@[old(self).queue@.len() + i],
                    applications@[i].application.pid,
                    expected_of(groups@, applications@[i].application.pid),
                ),
    {
        let ghost start = self.queue@;
        let mut i: usize = 0;
        while i < applications.len()
            invariant
                i <= applications@.len(),
                start == old(self).queue@,
                self.wf(),
                groups_once(groups@),
                self.unresolved@ == old(self).unresolved@,
                self.slow@ == old(self).slow@,
                self.queue@.len() == start.len() + i,
                forall|m: int| 0 <= m < start.len() ==> #[trigger] self.queue@[m] == start[m],
                forall|q: int|
                    0 <= q < i ==> lists_with(
                        #[trigger] self.queue@[start.len() + q],
                        applications@[q].application.pid,
                        expected_of(groups@, applications@[q].application.pid),
                    ),
            decreases applications@.len() - i,
        {
            let pid = applications[i].application.pid;
            let expected = expected_for(groups, pid);
            assert(expected@ =~= expected_of(groups@, pid));
            proof {
                lemma_expected_once(groups@, pid);
            }
            self.push_list(pid, expected);
            assert(lists_with(self.queue@[start.len() + i], pid, expected_of(groups@, pid)));
            i = i + 1;
        }
    }

    /// Compares the window server's list, by process, with the applications listed, and
    /// queues a listing of each that differs; see `relisted`. Returns whether any was
    /// queued.
    pub fn reconcile(&mut self, applications: &Vec<AppEntry>, groups: &Vec<(i32, Vec<WindowId>)>) -> (r:
        bool)
        requires
            old(self).wf(),
            groups_once(groups@),
        ensures
            final(self).wf(),
            ({
                let listed = relisted(
                    old(self).queue@,
                    old(self).unresolved@,
                    applications@,
                    groups@,
                    applications@.len() as int,
                );
                &&& r == (listed.len() > 0)
                &&& final(self).queue@.len() == old(self).queue@.len() + listed.len()
                &&& forall|m: int|
                    0 <= m < old(self).queue@.len() ==> #[trigger] final(self).queue@[m]
                        == old(self).queue@[m]
                &&& forall|q: int|
                    0 <= q < listed.len() ==> lists_with(
                        #[trigger] final(self).queue@[old(self).queue@.len() + q],
                        listed[q].0,
                        listed[q].1,
                    )
            }),
            final(self).unresolved@ == old(self).unresolved@,
            final(self).slow@ == old(self).slow@,
    {
        let ghost start = self.queue@;
        let ghost unresolved = self.unresolved@;
        let count = self.queue.len();
        let mut i: usize = 0;
        while i < applications.len()
            invariant
                i <= applications@.len(),
                start == old(self).queue@,
                self.wf(),
                groups_once(groups@),
                count == start.len(),
                unresolved == old(self).unresolved@,
                self.unresolved@ == old(self).unresolved@,
                self.slow@ == old(self).slow@,
                ({
                    let listed = relisted(start, unresolved, applications@, groups@, i as int);
                    &&& self.queue@.len() == start.len() + listed.len()
                    &&& forall|m: int|
                        0 <= m < start.len() ==> #[trigger] self.queue@[m] == start[m]
                    &&& forall|q: int|
                        0 <= q < listed.len() ==> lists_with(
                            #[trigger] self.queue@[start.len() + q],
                            listed[q].0,
                            listed[q].1,
                        )
                }),
            decreases applications@.len() - i,
        {
            let entry = &applications[i];
            let pid = entry.application.pid;
            let ghost earlier = relisted(start, unresolved, applications@, groups@, i as int);
            match crate::listing::group_place(groups, pid) {
                Some(g) => {
                    let want = &groups[g].1;
                    let queued = self.is_queued(pid);
                    proof {
                        assert(queued == ((exists|k: int|
                            0 <= k < start.len() && reads_windows_of(#[trigger] start[k], pid))
                            || exists|k: int| 0 <= k < earlier.len() && (#[trigger] earlier[k]).0 == pid)) by {
                            if queued {
                                let k = choose|k: int|
                                    0 <= k < self.queue@.len() && reads_windows_of(
                                        #[trigger] self.queue@[k],
                                        pid,
                                    );
                                if k >= start.len() {
                                    let q = k - start.len();
                                    assert(lists_with(self.queue@[start.len() + q], earlier[q].0, earlier[q].1));
                                    assert(earlier[q].0 == pid);
                                } else {
                                    assert(self.queue@[k] == start[k]);
                                }
                            }
                            if exists|k: int| 0 <= k < start.len() && reads_windows_of(#[trigger] start[k], pid) {
                                let k = choose|k: int| 0 <= k < start.len() && reads_windows_of(#[trigger] start[k], pid);
                                assert(self.queue@[k] == start[k]);
                                assert(reads_windows_of(self.queue@[k], pid));
                            }
                            if exists|k: int| 0 <= k < earlier.len() && (#[trigger] earlier[k]).0 == pid {
                                let k = choose|k: int| 0 <= k < earlier.len() && (#[trigger] earlier[k]).0 == pid;
                                assert(lists_with(self.queue@[start.len() + k], earlier[k].0, earlier[k].1));
                                assert(reads_windows_of(self.queue@[start.len() + k], pid));
                            }
                        }
                    }
                    if list_wanted(entry, want, queued, self.unresolved_of(pid)) {
                        let expected = expected_for(groups, pid);
                        proof {
                lemma_expected_once(groups@, pid);
            }
                        self.push_list(pid, expected);
                        assert(lists_with(
                            self.queue@[(start.len() + earlier.len()) as int],
                            pid,
                            groups@[g as int].1@,
                        ));
                    }
                },
                None => {},
            }
            i = i + 1;
        }
        self.queue.len() > count
    }
}

/// Whether a walk over process `pid`'s element ids is queued after a listing left
/// `missing` unaccounted for, with accessibility access `trusted`: none while one is
/// queued, none with nothing missing, and none when every missing id is one a whole walk
/// did not find before.
pub open spec fn walk_follows(
    queue: Seq<Job>,
    unresolved: Map<i32, HashSet<WindowId>>,
    trusted: bool,
    pid: i32,
    missing: Seq<WindowId>,
) -> bool {
    &&& trusted
    &&& !(exists|k: int| 0 <= k < queue.len() && walks(#[trigger] queue[k], pid))
    &&& missing.len() > 0
    &&& match unresolved_ids(unresolved, pid) {
        Some(ids) => !all_in_set(missing, ids),
        None => true,
    }
}

/// Takes a fresh list of process `pid`'s windows into its entry, as
/// `Desktop::list_windows` does, and queues a walk over its element ids for the ids the
/// window server holds that are still unaccounted for, when `walk_follows`. Returns
/// whether a walk was queued; with no entry of that process nothing changes.
pub fn list_step(
    desktop: &mut Desktop,
    jobs: &mut Jobs,
    trusted: bool,
    pid: i32,
    expected: Vec<WindowId>,
    listed: Vec<Window>,
    focused: Option<WindowId>,
) -> (r: bool)
    requires
        old(jobs).wf(),
        distinct(expected@),
    ensures
        final(jobs).wf(),
        final(jobs).unresolved@ == old(jobs).unresolved@,
        final(jobs).slow@ == old(jobs).slow@,
        final(desktop).spaces == old(desktop).spaces,
        final(desktop).showing == old(desktop).showing,
        no_entry(old(desktop).applications@, pid) ==> !r && final(desktop).applications
            == old(desktop).applications && final(jobs).queue@ == old(jobs).queue@,
        forall|i: int|
            #![trigger entry_place(old(desktop).applications@, pid, i)]
            entry_place(old(desktop).applications@, pid, i) ==> {
                let before = old(desktop).applications@[i];
                let windows = merged(
                    before.application.is_hidden,
                    listed@,
                    before.windows@,
                    expected@,
                );
                &&& entry_changed(
                    old(desktop).applications@,
                    final(desktop).applications@,
                    i,
                    windows,
                    focus_kept(before.application, focused),
                )
                &&& r == walk_follows(
                    old(jobs).queue@,
                    old(jobs).unresolved@,
                    trusted,
                    pid,
                    missing_from(expected@, windows),
                )
                &&& final(jobs).queue@ == if r {
                    old(jobs).queue@.push(Job::Walk { pid, expected, cursor: 0 })
                } else {
                    old(jobs).queue@
                }
            },
{
    match desktop.list_windows(pid, &expected, listed, focused) {
        Some(missing) => jobs.after_listing(trusted, pid, expected, &missing),
        None => false,
    }
}

/// Takes the applications running now into the desktop, as
/// `Desktop::sync_applications` does; forgets what was recorded of processes no longer
/// running; and queues, for each process that arrived, a listing of its windows with
/// the ids the window server holds for it in `groups`, then its icon. Returns the
/// processes that arrived.
pub fn sync_step(
    desktop: &mut Desktop,
    jobs: &mut Jobs,
    running: Vec<(Application, Option<WindowId>)>,
    badges: &Vec<(String, String)>,
    groups: &Vec<(i32, Vec<WindowId>)>,
) -> (r: Vec<i32>)
    requires
        old(jobs).wf(),
        groups_once(groups@),
    ensures
        final(jobs).wf(),
        final(desktop).spaces == old(desktop).spaces,
        final(desktop).showing == old(desktop).showing,
        final(desktop).applications@.len() == running@.len(),
        forall|k: int|
            #![trigger final(desktop).applications@[k]]
            0 <= k < running@.len() ==> synced(
                old(desktop).applications@,
                running@,
                badges@,
                k,
                final(desktop).applications@[k],
            ),
        r@ == arrivals(old(desktop).applications@, running@, running@.len() as int),
        ({
            let living = running@.map_values(|entry: (Application, Option<WindowId>)| entry.0.pid).to_set();
            &&& final(jobs).unresolved@ == old(jobs).unresolved@.restrict(living)
            &&& final(jobs).slow@ == old(jobs).slow@.restrict(living)
        }),
        final(jobs).queue@.len() == old(jobs).queue@.len() + 2 * r@.len(),
        forall|m: int|
            0 <= m < old(jobs).queue@.len() ==> #[trigger] final(jobs).queue@[m]
                == old(jobs).queue@[m],
        forall|i: int|
            0 <= i < r@.len() ==> {
                &&& lists_with(
                    #[trigger] final(jobs).queue@[old(jobs).queue@.len() + 2 * i],
                    r@[i],
                    expected_of(groups@, r@[i]),
                )
                &&& final(jobs).queue@[old(jobs).queue@.len() + 2 * i + 1] == Job::Icon(r@[i])
            },
{
    let ghost incoming = running@;
    let arrived = desktop.sync_applications(running, badges);
    let living = desktop.pids();
    assert(living@ =~= incoming.map_values(|entry: (Application, Option<WindowId>)| entry.0.pid)) by {
        assert forall|k: int| 0 <= k < living@.len() implies living@[k] == incoming[k].0.pid by {
            assert(synced(old(desktop).applications@, incoming, badges@, k, desktop.applications@[k]));
        }
    }
    jobs.forget_gone(&living);
    jobs.queue_arrivals(&arrived, groups);
    arrived
}

/// What a gathered change leaves the host to read again.
#[derive(Clone, Copy, Debug, PartialEq, Eq, Structural)]
pub enum Reread {
    /// The applications running, to sync the entries with.
    Applications,
    /// One window of a process.
    Window(i32, WindowId),
    /// Which application is active, and the window this process types into.
    Focus(i32),
    /// The Spaces, and the Spaces each window is on.
    Spaces,
    /// The displays.
    Screens,
}

/// The windows the gathered changes report destroyed, by process and id, in order.
pub open spec fn closed_in(changes: Seq<Change>) -> Seq<(i32, WindowId)>
    decreases changes.len(),
{
    if changes.len() == 0 {
        Seq::empty()
    } else {
        let earlier = closed_in(changes.drop_last());
        match changes.last() {
            Change::Closed(pid, id) => earlier.push((pid, id)),
            _ => earlier,
        }
    }
}

/// The listings the gathered changes queue, by process and the ids the window server
/// holds for it, in order: one for each process whose window list went stale.
pub open spec fn listings_in(changes: Seq<Change>, groups: Seq<(i32, Vec<WindowId>)>) -> Seq<
    (i32, Seq<WindowId>),
>
    decreases changes.len(),
{
    if changes.len() == 0 {
        Seq::empty()
    } else {
        let earlier = listings_in(changes.drop_last(), groups);
        match changes.last() {
            Change::Windows(pid) => earlier.push((pid, expected_of(groups, pid))),
            _ => earlier,
        }
    }
}

/// What the gathered changes leave the host to read again, in order.
pub open spec fn rereads_in(changes: Seq<Change>) -> Seq<Reread>
    decreases changes.len(),
{
    if changes.len() == 0 {
        Seq::empty()
    } else {
        let earlier = rereads_in(changes.drop_last());
        match changes.last() {
            Change::Applications => earlier.push(Reread::Applications),
            Change::Window(pid, id) => earlier.push(Reread::Window(pid, id)),
            Change::Focus(pid) => earlier.push(Reread::Focus(pid)),
            Change::Spaces => earlier.push(Reread::Spaces),
            Change::Screens => earlier.push(Reread::Screens),
            _ => earlier,
        }
    }
}

/// Applies the changes gathered since the last time: each window reported destroyed
/// leaves the entry of its process; each process whose window list went stale gets a
/// listing queued, with the ids the window server holds for it in `groups`, which the
/// host reads first when `needs_list` says so; the rest comes back for the host to read
/// again.
pub fn flush(
    desktop: &mut Desktop,
    jobs: &mut Jobs,
    changes: &Vec<Change>,
    groups: &Vec<(i32, Vec<WindowId>)>,
) -> (r: Vec<Reread>)
    requires
        old(jobs).wf(),
        groups_once(groups@),
    ensures
        final(jobs).wf(),
        r@ == rereads_in(changes@),
        final(desktop).spaces == old(desktop).spaces,
        final(desktop).showing == old(desktop).showing,
        final(desktop).applications@.len() == old(desktop).applications@.len(),
        forall|i: int|
            0 <= i < old(desktop).applications@.len() ==> entry_cleared(
                old(desktop).applications@,
                closed_in(changes@),
                i,
                #[trigger] final(desktop).applications@[i],
            ),
        ({
            let listed = listings_in(changes@, groups@);
            &&& final(jobs).queue@.len() == old(jobs).queue@.len() + listed.len()
            &&& forall|m: int|
                0 <= m < old(jobs).queue@.len() ==> #[trigger] final(jobs).queue@[m]
                    == old(jobs).queue@[m]
            &&& forall|q: int|
                0 <= q < listed.len() ==> lists_with(
                    #[trigger] final(jobs).queue@[old(jobs).queue@.len() + q],
                    listed[q].0,
                    listed[q].1,
                )
        }),
        final(jobs).unresolved@ == old(jobs).unresolved@,
        final(jobs).slow@ == old(jobs).slow@,
{
    let mut closed: Vec<(i32, WindowId)> = Vec::new();
    let mut rereads: Vec<Reread> = Vec::new();
    let ghost start = jobs.queue@;
    let count = jobs.queue.len();
    let mut k: usize = 0;
    while k < changes.len()
        invariant
            k <= changes@.len(),
            count == start.len(),
            start == old(jobs).queue@,
            jobs.wf(),
            groups_once(groups@),
            jobs.unresolved@ == old(jobs).unresolved@,
            jobs.slow@ == old(jobs).slow@,
            closed@ == closed_in(changes@.take(k as int)),
            rereads@ == rereads_in(changes@.take(k as int)),
            ({
                let listed = listings_in(changes@.take(k as int), groups@);
                &&& jobs.queue@.len() == start.len() + listed.len()
                &&& forall|m: int| 0 <= m < start.len() ==> #[trigger] jobs.queue@[m] == start[m]
                &&& forall|q: int|
                    0 <= q < listed.len() ==> lists_with(
                        #[trigger] jobs.queue@[start.len() + q],
                        listed[q].0,
                        listed[q].1,
                    )
            }),
        decreases changes@.len() - k,
    {
        let change = changes[k];
        let ghost done = changes@.take(k as int);
        assert(changes@.take(k + 1).drop_last() =~= done);
        assert(changes@.take(k + 1).last() == change);
        let ghost listed = listings_in(done, groups@);
        match change {
            Change::Applications => rereads.push(Reread::Applications),
            Change::Windows(pid) => {
                let expected = expected_for(groups, pid);
                assert(expected@ =~= expected_of(groups@, pid));
                proof {
                lemma_expected_once(groups@, pid);
            }
                jobs.push_list(pid, expected);
                assert(lists_with(jobs.queue@[(start.len() + listed.len()) as int], pid, expected_of(groups@, pid)));
            },
            Change::Window(pid, id) => rereads.push(Reread::Window(pid, id)),
            Change::Closed(pid, id) => closed.push((pid, id)),
            Change::Focus(pid) => rereads.push(Reread::Focus(pid)),
            Change::Spaces => rereads.push(Reread::Spaces),
            Change::Screens => rereads.push(Reread::Screens),
        }
        k = k + 1;
    }
    assert(changes@.take(changes@.len() as int) =~= changes@);
    desktop.remove_closed(&closed);
    rereads
}

proof fn lemma_closed_in(changes: Seq<Change>, pid: i32, id: WindowId)
    requires
        changes.contains(Change::Closed(pid, id)),
    ensures
        closed_in(changes).contains((pid, id)),
    decreases changes.len(),
{
    let k = choose|k: int| 0 <= k < changes.len() && changes[k] == Change::Closed(pid, id);
    if k == changes.len() - 1 {
        assert(closed_in(changes).last() == (pid, id));
    } else {
        assert(changes.drop_last()[k] == changes[k]);
        lemma_closed_in(changes.drop_last(), pid, id);
        let earlier = closed_in(changes.drop_last());
        let m = choose|m: int| 0 <= m < earlier.len() && earlier[m] == (pid, id);
        match changes.last() {
            Change::Closed(_, _) => assert(closed_in(changes)[m] == (pid, id)),
            _ => {},
        }
    }
}

/// A window reported destroyed is gone from its process's entry once the gathered
/// changes are applied.
pub proof fn lemma_closed_window_gone(changes: Seq<Change>, windows: Seq<Window>, pid: i32, id: WindowId)
    requires
        changes.contains(Change::Closed(pid, id)),
    ensures
        !ids_of(windows.filter(not_closed(closed_in(changes), pid))).contains(id),
{
    lemma_closed_in(changes, pid, id);
    let kept = windows.filter(not_closed(closed_in(changes), pid));
    if ids_of(kept).contains(id) {
        let k = choose|k: int| 0 <= k < ids_of(kept).len() && ids_of(kept)[k] == id;
        windows.lemma_filter_pred(not_closed(closed_in(changes), pid), k);
    }
}

/// Each process whose window list went stale gets one listing queued per report of it.
pub proof fn lemma_stale_list_is_queued(changes: Seq<Change>, groups: Seq<(i32, Vec<WindowId>)>, pid: i32)
    requires
        changes.contains(Change::Windows(pid)),
    ensures
        exists|q: int|
            0 <= q < listings_in(changes, groups).len() && listings_in(changes, groups)[q] == (
                pid,
                expected_of(groups, pid),
            ),
    decreases changes.len(),
{
    let k = choose|k: int| 0 <= k < changes.len() && changes[k] == Change::Windows(pid);
    let listed = listings_in(changes, groups);
    if k == changes.len() - 1 {
        assert(listed[listed.len() - 1] == (pid, expected_of(groups, pid)));
    } else {
        assert(changes.drop_last()[k] == changes[k]);
        lemma_stale_list_is_queued(changes.drop_last(), groups, pid);
        let earlier = listings_in(changes.drop_last(), groups);
        let q = choose|q: int| 0 <= q < earlier.len() && earlier[q] == (pid, expected_of(groups, pid));
        assert(listed[q] == earlier[q]);
    }
}

} // verus!
