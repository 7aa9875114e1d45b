//! Pictures of windows, for the panel to show while the pointer rests on a row: when a
//! preview shows, when a picture is taken, and which pictures are kept. Taking one is the
//! app's; times are in milliseconds of a clock that does not go back.

use std::collections::HashSet;

use vstd::prelude::*;

use crate::settings::PreviewTrigger;
use crate::space::WindowId;

verus! {

broadcast use vstd::std_specs::hash::group_hash_axioms;

/// How long the pointer rests on a row before its window is pictured.
pub const REST: u64 = 400;
/// How long the pointer rests on the next row before the preview follows.
pub const FOLLOW: u64 = 80;
/// How long the preview stays after the pointer leaves a row.
pub const LINGER: u64 = 160;
/// How old a picture may be before the pointer, still resting, has another taken.
pub const REFRESH: u64 = 2000;
/// How old the list of windows the system will picture may be before it is read again.
pub const LIST_AGE: u64 = 5000;
/// How many pictures are kept.
pub const KEEP: usize = 20;

/// Whether the setting lets a preview show now.
pub fn allowed(trigger: PreviewTrigger, command_held: bool) -> (r: bool)
    ensures
        r == (trigger == PreviewTrigger::Hover || command_held),
{
    match trigger {
        PreviewTrigger::Hover => true,
        PreviewTrigger::CommandKey => command_held,
    }
}

/// What to do once the window the pointer rests on is known: the timers that were
/// running are cancelled first, whatever follows.
#[derive(Clone, Copy, Debug, PartialEq, Eq, Structural)]
pub enum Consider {
    /// Nothing shows, and nothing will.
    Nothing,
    /// The preview showing stays for `LINGER`, then goes.
    Linger,
    /// The window shown already is the one rested on.
    Stay,
    /// Show this window after this many milliseconds.
    Rest(WindowId, u64),
}

/// The step for the window rested on, `None` for no window, given the one shown.
pub open spec fn considered(showing: Option<WindowId>, rest: Option<WindowId>) -> Consider {
    match rest {
        None => if showing is Some {
            Consider::Linger
        } else {
            Consider::Nothing
        },
        Some(id) => if showing == Some(id) {
            Consider::Stay
        } else if showing is Some {
            Consider::Rest(id, FOLLOW)
        } else {
            Consider::Rest(id, REST)
        },
    }
}

/// The pointer came to rest on a window's row, or left one: a first preview waits
/// longer than the next, so a sweep down the list moves nothing.
pub fn consider(showing: Option<WindowId>, rest: Option<WindowId>) -> (r: Consider)
    ensures
        r == considered(showing, rest),
{
    match rest {
        None => match showing {
            Some(_) => Consider::Linger,
            None => Consider::Nothing,
        },
        Some(id) => match showing {
            Some(shown) => if shown == id {
                Consider::Stay
            } else {
                Consider::Rest(id, FOLLOW)
            },
            None => Consider::Rest(id, REST),
        },
    }
}

/// The window to consider when the pointer rests on `under_pointer`: none unless the
/// setting allows a preview now.
pub fn rest_on(trigger: PreviewTrigger, command_held: bool, under_pointer: Option<WindowId>) -> (r:
    Option<WindowId>)
    ensures
        r == (if trigger == PreviewTrigger::Hover || command_held {
            under_pointer
        } else {
            None
        }),
{
    if allowed(trigger, command_held) {
        under_pointer
    } else {
        None
    }
}

/// The Command key went down or up: the window to consider now, or `None` when the
/// setting does not wait for the key and nothing changes.
pub fn command_changed(trigger: PreviewTrigger, held: bool, under_pointer: Option<WindowId>) -> (r:
    Option<Option<WindowId>>)
    ensures
        r == (if trigger == PreviewTrigger::CommandKey {
            Some(
                if held {
                    under_pointer
                } else {
                    None
                },
            )
        } else {
            None
        }),
{
    if trigger != PreviewTrigger::CommandKey {
        return None;
    }
    Some(
        if held {
            under_pointer
        } else {
            None
        },
    )
}

/// A first preview waits longer than the next: resting on a row with no preview
/// showing waits `REST`, and resting on another row while one shows waits the shorter
/// `FOLLOW`, so a sweep down the list moves nothing.
pub proof fn lemma_first_preview_waits_longer(id: WindowId, shown: WindowId)
    requires
        shown != id,
    ensures
        considered(None, Some(id)) == Consider::Rest(id, REST),
        considered(Some(shown), Some(id)) == Consider::Rest(id, FOLLOW),
        FOLLOW < REST,
{
}

/// What a window shown needs for its picture.
#[derive(Clone, Copy, Debug, PartialEq, Eq, Structural)]
pub enum PictureStep {
    /// Nothing: pictures cannot be taken, one is being taken, or a fresh one is kept.
    Nothing,
    /// Take a picture of the window now.
    Capture,
    /// Read the list of windows the system will picture first.
    List,
}

/// Whether something taken at `taken` is still fresh at `now`.
pub open spec fn within(taken: u64, now: u64, age: u64) -> bool {
    now < taken || now - taken < age
}

/// What the window shown needs: `available` when screen recording is granted,
/// `in_flight` when its picture is being taken, `taken` when its last picture was taken,
/// `listed` whether the system's list of windows holds it and when that list was read.
pub fn picture_step(
    available: bool,
    in_flight: bool,
    taken: Option<u64>,
    targeted: bool,
    listed: Option<u64>,
    now: u64,
) -> (r: PictureStep)
    ensures
        r == (if !available || in_flight || (taken matches Some(t) && within(t, now, REFRESH)) {
            PictureStep::Nothing
        } else if targeted {
            PictureStep::Capture
        } else if listed matches Some(l) && !(now >= l && now - l > LIST_AGE) {
            PictureStep::Nothing
        } else {
            PictureStep::List
        }),
{
    if !available || in_flight {
        return PictureStep::Nothing;
    }
    let fresh = match taken {
        Some(t) => now < t || now - t < REFRESH,
        None => false,
    };
    if fresh {
        return PictureStep::Nothing;
    }
    if targeted {
        return PictureStep::Capture;
    }
    let stale = match listed {
        Some(l) => now >= l && now - l > LIST_AGE,
        None => true,
    };
    if stale {
        PictureStep::List
    } else {
        PictureStep::Nothing
    }
}

/// When each picture kept was taken, one entry per window.
pub struct Kept {
    entries: Vec<(WindowId, u64)>,
}

/// Whether no window has two entries.
pub open spec fn distinct_ids(entries: Seq<(WindowId, u64)>) -> bool {
    forall|a: int, b: int|
        0 <= a < b < entries.len() ==> (#[trigger] entries[a]).0 != (#[trigger] entries[b]).0
}

/// The entries once a picture of `id` taken at `now` is kept: in place of the entry of
/// `id` where there is one, else after the others.
pub open spec fn placed(entries: Seq<(WindowId, u64)>, id: WindowId, now: u64) -> Seq<(WindowId, u64)> {
    if exists|k: int| 0 <= k < entries.len() && (#[trigger] entries[k]).0 == id {
        let k = choose|k: int| 0 <= k < entries.len() && (#[trigger] entries[k]).0 == id;
        entries.update(k, (id, now))
    } else {
        entries.push((id, now))
    }
}

/// Whether the entry at `k` was taken no later than any other.
pub open spec fn is_oldest(entries: Seq<(WindowId, u64)>, k: int) -> bool {
    &&& 0 <= k < entries.len()
    &&& forall|m: int| 0 <= m < entries.len() ==> entries[k].1 <= (#[trigger] entries[m]).1
}

/// A picture just kept is held, as taken then, in place of any earlier one of its window.
pub proof fn lemma_kept_picture_held(entries: Seq<(WindowId, u64)>, id: WindowId, now: u64)
    requires
        distinct_ids(entries),
    ensures
        placed(entries, id, now).contains((id, now)),
        distinct_ids(placed(entries, id, now)),
{
    let all = placed(entries, id, now);
    if exists|k: int| 0 <= k < entries.len() && (#[trigger] entries[k]).0 == id {
        let k = choose|k: int| 0 <= k < entries.len() && (#[trigger] entries[k]).0 == id;
        assert(all[k] == (id, now));
    } else {
        assert(all[entries.len() as int] == (id, now));
    }
}

impl Kept {
    pub closed spec fn view(self) -> Seq<(WindowId, u64)> {
        self.entries@
    }

    pub open spec fn wf(self) -> bool {
        &&& distinct_ids(self.view())
        &&& self.view().len() <= KEEP
    }

    /// No pictures kept.
    pub fn new() -> (r: Kept)
        ensures
            r.view() == Seq::<(WindowId, u64)>::empty(),
            r.wf(),
    {
        Kept { entries: Vec::new() }
    }

    /// When the picture of a window kept was taken.
    pub fn taken(&self, id: WindowId) -> (r: Option<u64>)
        requires
            self.wf(),
        ensures
            match r {
                Some(t) => self.view().contains((id, t)),
                None => forall|k: int| 0 <= k < self.view().len() ==> #[trigger] self.view()[k].0 != id,
            },
    {
        let mut k: usize = 0;
        while k < self.entries.len()
            invariant
                k <= self.entries@.len(),
                forall|m: int| 0 <= m < k ==> #[trigger] self.entries@[m].0 != id,
            decreases self.entries@.len() - k,
        {
            if self.entries[k].0 == id {
                assert(self.entries@[k as int] == (id, self.entries@[k as int].1));
                return Some(self.entries[k].1);
            }
            k = k + 1;
        }
        None
    }

    /// The place of the entry of `id`, if there is one.
    fn place_of(&self, id: WindowId) -> (r: Option<usize>)
        ensures
            match r {
                Some(k) => k < self.view().len() && self.view()[k as int].0 == id,
                None => forall|k: int| 0 <= k < self.view().len() ==> #[trigger] self.view()[k].0 != id,
            },
    {
        let mut k: usize = 0;
        while k < self.entries.len()
            invariant
                k <= self.entries@.len(),
                forall|m: int| 0 <= m < k ==> #[trigger] self.entries@[m].0 != id,
            decreases self.entries@.len() - k,
        {
            if self.entries[k].0 == id {
                return Some(k);
            }
            k = k + 1;
        }
        None
    }

    /// Keeps a picture of `id` taken at `now`, in place of any earlier one of it, and lets
    /// the oldest go once there are too many. Returns the window whose picture went.
    pub fn keep(&mut self, id: WindowId, now: u64) -> (r: Option<WindowId>)
        requires
            old(self).wf(),
        ensures
            final(self).wf(),
            ({
                let all = placed(old(self).view(), id, now);
                match r {
                    None => all.len() <= KEEP && final(self).view() == all,
                    Some(gone) => all.len() > KEEP && exists|k: int|
                        is_oldest(all, k) && (#[trigger] all[k]).0 == gone
                            && final(self).view() == all.remove(k),
                }
            }),
    {
        let ghost before = self.entries@;
        match self.place_of(id) {
            Some(k) => {
                proof {
                    let c = choose|c: int| 0 <= c < before.len() && (#[trigger] before[c]).0 == id;
                    assert(c == k as int);
                }
                self.entries.set(k, (id, now));
                assert(distinct_ids(self.entries@));
                return None;
            },
            None => {
                self.entries.push((id, now));
            },
        }
        assert(distinct_ids(self.entries@));
        if self.entries.len() <= KEEP {
            return None;
        }
        let ghost all = self.entries@;
        let mut oldest: usize = 0;
        let mut m: usize = 1;
        while m < self.entries.len()
            invariant
                self.entries@ == all,
                1 <= m <= all.len(),
                oldest < m,
                forall|q: int| 0 <= q < m ==> all[oldest as int].1 <= #[trigger] all[q].1,
            decreases all.len() - m,
        {
            if self.entries[m].1 < self.entries[oldest].1 {
                oldest = m;
            }
            m = m + 1;
        }
        let gone = self.entries.remove(oldest);
        assert(distinct_ids(self.entries@)) by {
            assert forall|a: int, b: int| 0 <= a < b < self.entries@.len() implies (
            #[trigger] self.entries@[a]).0 != (#[trigger] self.entries@[b]).0 by {
                let x = if a < oldest { a } else { a + 1 };
                let y = if b < oldest { b } else { b + 1 };
                assert(self.entries@[a] == all[x] && self.entries@[b] == all[y]);
            }
        }
        assert(is_oldest(all, oldest as int));
        assert(all == placed(before, id, now));
        assert(all[oldest as int].0 == gone.0);
        assert(self.entries@ == all.remove(oldest as int));
        Some(gone.0)
    }
}

/// What the previews keep track of: the window the pointer rests on and the one shown,
/// the windows the system will picture and when that list was read, the pictures being
/// taken, and the pictures kept. The timers and the pictures themselves are the app's.
pub struct PreviewState {
    /// Whether the Command key is held now, for the setting that wants it.
    pub command_held: bool,
    /// The window the pointer rests on, whether or not it is shown.
    pub under_pointer: Option<WindowId>,
    /// The window the pointer has rested on long enough to show.
    pub showing: Option<WindowId>,
    /// The windows the system will picture, as last listed.
    pub targets: HashSet<WindowId>,
    /// When that list was read.
    pub listed: Option<u64>,
    /// Whether the list is being read.
    pub listing: bool,
    /// The windows whose picture is being taken.
    pub in_flight: HashSet<WindowId>,
    /// When each picture kept was taken.
    pub kept: Kept,
}

impl PreviewState {
    /// Nothing shown, listed or kept; the Command key as held now.
    pub fn new(command_held: bool) -> (r: PreviewState)
        ensures
            r.command_held == command_held,
            r.under_pointer is None,
            r.showing is None,
            r.targets@ == Set::<WindowId>::empty(),
            r.listed is None,
            !r.listing,
            r.in_flight@ == Set::<WindowId>::empty(),
            r.kept.view() == Seq::<(WindowId, u64)>::empty(),
            r.kept.wf(),
    {
        PreviewState {
            command_held,
            under_pointer: None,
            showing: None,
            targets: HashSet::new(),
            listed: None,
            listing: false,
            in_flight: HashSet::new(),
            kept: Kept::new(),
        }
    }

    /// The pointer came to rest on a window's row, or left one: the step to take, by
    /// `consider`, for the window the setting lets show.
    pub fn rest_on(&mut self, trigger: PreviewTrigger, rest: Option<WindowId>) -> (r: Consider)
        ensures
            *final(self) == (PreviewState { under_pointer: rest, ..*old(self) }),
            r == considered(
                old(self).showing,
                if trigger == PreviewTrigger::Hover || old(self).command_held {
                    rest
                } else {
                    None
                },
            ),
    {
        self.under_pointer = rest;
        let allowed_rest = rest_on(trigger, self.command_held, rest);
        consider(self.showing, allowed_rest)
    }

    /// The Command key went down or up: the step to take when the setting waits for it,
    /// `None` when it does not.
    pub fn command_changed(&mut self, trigger: PreviewTrigger, held: bool) -> (r: Option<Consider>)
        ensures
            *final(self) == (PreviewState { command_held: held, ..*old(self) }),
            r == if trigger == PreviewTrigger::CommandKey {
                Some(
                    considered(
                        old(self).showing,
                        if held {
                            old(self).under_pointer
                        } else {
                            None
                        },
                    ),
                )
            } else {
                None
            },
    {
        self.command_held = held;
        match command_changed(trigger, held, self.under_pointer) {
            Some(rest) => Some(consider(self.showing, rest)),
            None => None,
        }
    }

    /// The pointer rested long enough: `id` is shown.
    pub fn show(&mut self, id: WindowId)
        ensures
            *final(self) == (PreviewState { showing: Some(id), ..*old(self) }),
    {
        self.showing = Some(id);
    }

    /// The preview goes: returns whether one was showing.
    pub fn take_away(&mut self) -> (r: bool)
        ensures
            *final(self) == (PreviewState { showing: None, ..*old(self) }),
            r == old(self).showing is Some,
    {
        let was = self.showing.is_some();
        self.showing = None;
        was
    }

    /// What the window shown, `id`, needs for its picture at `now`, with screen recording
    /// `available`: see `picture_step`.
    pub fn picture_needed(&self, available: bool, id: WindowId, now: u64) -> (r: PictureStep)
        requires
            self.kept.wf(),
        ensures
            r == (if !available || self.in_flight@.contains(id) || (exists|t: u64|
                self.kept.view().contains((id, t)) && within(t, now, REFRESH)) {
                PictureStep::Nothing
            } else if self.targets@.contains(id) {
                PictureStep::Capture
            } else if self.listed matches Some(l) && !(now >= l && now - l > LIST_AGE) {
                PictureStep::Nothing
            } else {
                PictureStep::List
            }),
    {
        let taken = self.kept.taken(id);
        proof {
            if let Some(t) = taken {
                assert forall|u: u64| self.kept.view().contains((id, u)) implies u == t by {
                    let a = choose|a: int| 0 <= a < self.kept.view().len() && self.kept.view()[a] == (id, t);
                    let b = choose|b: int| 0 <= b < self.kept.view().len() && self.kept.view()[b] == (id, u);
                    if a != b {
                        assert(distinct_ids(self.kept.view()));
                        if a < b {
                            assert(self.kept.view()[a].0 != self.kept.view()[b].0);
                        } else {
                            assert(self.kept.view()[b].0 != self.kept.view()[a].0);
                        }
                    }
                }
            } else {
                assert forall|u: u64| !self.kept.view().contains((id, u)) by {
                    if self.kept.view().contains((id, u)) {
                        let a = choose|a: int| 0 <= a < self.kept.view().len() && self.kept.view()[a] == (id, u);
                        assert(self.kept.view()[a].0 != id);
                    }
                }
            }
        }
        picture_step(
            available,
            self.in_flight.contains(&id),
            taken,
            self.targets.contains(&id),
            self.listed,
            now,
        )
    }

    /// Starts reading the list of windows the system will picture, unless it is being
    /// read: returns whether to read it.
    pub fn start_listing(&mut self) -> (r: bool)
        ensures
            r == !old(self).listing,
            *final(self) == (PreviewState { listing: true, ..*old(self) }),
    {
        if self.listing {
            return false;
        }
        self.listing = true;
        true
    }

    /// The list was read at `now`: the window shown is pictured if it is among `targets`,
    /// which is returned.
    pub fn targets_listed(&mut self, targets: HashSet<WindowId>, now: u64) -> (r: Option<WindowId>)
        ensures
            *final(self) == (PreviewState {
                listing: false,
                listed: Some(now),
                targets: targets,
                ..*old(self)
            }),
            r == match old(self).showing {
                Some(id) => if targets@.contains(id) {
                    Some(id)
                } else {
                    None
                },
                None => None,
            },
    {
        self.listing = false;
        self.listed = Some(now);
        self.targets = targets;
        match self.showing {
            Some(id) => if self.targets.contains(&id) {
                Some(id)
            } else {
                None
            },
            None => None,
        }
    }

    /// Starts taking a picture of `id`, which it can only be when listed: returns whether
    /// one is taken.
    pub fn start_capture(&mut self, id: WindowId) -> (r: bool)
        ensures
            r == old(self).targets@.contains(id),
            final(self).in_flight@ == if r {
                old(self).in_flight@.insert(id)
            } else {
                old(self).in_flight@
            },
            final(self).targets == old(self).targets,
            final(self).showing == old(self).showing,
            final(self).under_pointer == old(self).under_pointer,
            final(self).command_held == old(self).command_held,
            final(self).listed == old(self).listed,
            final(self).listing == old(self).listing,
            final(self).kept == old(self).kept,
            !r ==> final(self).in_flight == old(self).in_flight,
    {
        if !self.targets.contains(&id) {
            return false;
        }
        self.in_flight.insert(id);
        true
    }

    /// The picture of `id` came back at `now`, or failed: it is no longer being taken, and
    /// a picture is kept; returns the window whose picture went to make room.
    pub fn captured(&mut self, id: WindowId, pictured: bool, now: u64) -> (r: Option<WindowId>)
        requires
            old(self).kept.wf(),
        ensures
            final(self).kept.wf(),
            final(self).in_flight@ == old(self).in_flight@.remove(id),
            !pictured ==> r is None && final(self).kept == old(self).kept,
            pictured ==> ({
                let all = placed(old(self).kept.view(), id, now);
                match r {
                    None => all.len() <= KEEP && final(self).kept.view() == all,
                    Some(gone) => all.len() > KEEP && exists|k: int|
                        is_oldest(all, k) && (#[trigger] all[k]).0 == gone
                            && final(self).kept.view() == all.remove(k),
                }
            }),
            final(self).showing == old(self).showing,
            final(self).targets == old(self).targets,
            final(self).under_pointer == old(self).under_pointer,
            final(self).command_held == old(self).command_held,
            final(self).listed == old(self).listed,
            final(self).listing == old(self).listing,
    {
        self.in_flight.remove(&id);
        if !pictured {
            return None;
        }
        self.kept.keep(id, now)
    }
}

/// The caption under a window's picture: its title, or "Untitled" for a window that
/// has none.
pub fn preview_caption(title: &String) -> (r: String)
    ensures
        r@ == if title@.len() == 0 {
            "Untitled"@
        } else {
            title@
        },
{
    if title.unicode_len() == 0 {
        String::from_str("Untitled")
    } else {
        title.clone()
    }
}

/// What the preview does with a picture ready for window `id`, taken at `taken`, given
/// the picture it draws now, by window and time taken.
#[derive(Clone, Copy, Debug, PartialEq, Eq, Structural)]
pub enum ImageStep {
    /// The picture drawn is that one already: nothing changes.
    Keep,
    /// Import the picture and draw it in place of the one drawn; `fade_in` when it is of
    /// another window than the one drawn, or nothing was drawn.
    Import { fade_in: bool },
}

/// The step for a ready picture; see `ImageStep`. A picture that cannot be imported
/// leaves the one drawn as it is.
pub fn image_step(drawn: Option<(WindowId, u64)>, id: WindowId, taken: u64) -> (r: ImageStep)
    ensures
        r == if drawn == Some((id, taken)) {
            ImageStep::Keep
        } else {
            ImageStep::Import {
                fade_in: match drawn {
                    Some((kept, _)) => kept != id,
                    None => true,
                },
            }
        },
{
    match drawn {
        Some((kept, kept_taken)) => if kept == id && kept_taken == taken {
            ImageStep::Keep
        } else {
            ImageStep::Import { fade_in: kept != id }
        },
        None => ImageStep::Import { fade_in: true },
    }
}

} // verus!
