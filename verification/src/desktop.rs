//! The desktop as the panel shows it: the applications running, their windows, the
//! Spaces of each display and the one each shows, and the orders the panel lists them in.
//! Reading any of it from macOS is the app's; what is read is held here.

use std::cmp::Ordering;

use vstd::prelude::*;

use crate::space::{Space, SpaceId, SpaceKind, WindowId};
use crate::text::{
    compare_text, lemma_text_order_flips, lemma_text_order_transitive, lowercase, same_text,
    text_order, to_lowercase, Order,
};

verus! {

/// A running application, as the workspace reports it.
pub struct Application {
    pub pid: i32,
    pub bundle_id: Option<String>,
    /// Where the application's bundle is, with no trailing `/`.
    pub bundle_path: Option<String>,
    pub name: String,
    pub is_active: bool,
    pub is_hidden: bool,
}

/// One window of one application, as its accessibility element reports it.
pub struct Window {
    /// The window-server id, stable for the window's lifetime.
    pub id: WindowId,
    /// The process owning it.
    pub pid: i32,
    /// The title bar's text, empty for windows that have none.
    pub title: String,
    pub is_minimized: bool,
    pub is_fullscreen: bool,
    /// The Spaces it appears on; more than one when the user has pinned it.
    pub spaces: Vec<SpaceId>,
}

/// Two records of a running application are the same application when they are of
/// the same process.
impl PartialEq for Application {
    fn eq(&self, other: &Application) -> (r: bool) {
        self.pid == other.pid
    }
}

impl vstd::std_specs::cmp::PartialEqSpecImpl for Application {
    open spec fn obeys_eq_spec() -> bool {
        true
    }

    open spec fn eq_spec(&self, other: &Application) -> bool {
        self.pid == other.pid
    }
}

/// Two reads of a window are the same window when they carry the same id.
impl PartialEq for Window {
    fn eq(&self, other: &Window) -> (r: bool) {
        self.id == other.id
    }
}

impl vstd::std_specs::cmp::PartialEqSpecImpl for Window {
    open spec fn obeys_eq_spec() -> bool {
        true
    }

    open spec fn eq_spec(&self, other: &Window) -> bool {
        self.id == other.id
    }
}

/// One application with the windows it has open.
pub struct AppEntry {
    pub application: Application,
    pub windows: Vec<Window>,
    /// The window this application would type into, read only for the active one.
    pub focused: Option<WindowId>,
    /// The Dock tile's badge, such as an unread count.
    pub badge: Option<String>,
}

/// The order of two numbers.
pub open spec fn id_order(a: int, b: int) -> Order {
    if a < b {
        Order::Less
    } else if a > b {
        Order::Greater
    } else {
        Order::Equal
    }
}

/// Windows by title, case aside, and by id when the titles agree.
pub open spec fn title_rank(left: (Seq<char>, WindowId), right: (Seq<char>, WindowId)) -> Order {
    match text_order(lowercase(left.0), lowercase(right.0)) {
        Order::Equal => id_order(left.1 as int, right.1 as int),
        other => other,
    }
}

/// Windows by application, case aside, then by title within one.
pub open spec fn window_rank(
    left: (Seq<char>, Seq<char>, WindowId),
    right: (Seq<char>, Seq<char>, WindowId),
) -> Order {
    match text_order(lowercase(left.0), lowercase(right.0)) {
        Order::Equal => title_rank((left.1, left.2), (right.1, right.2)),
        other => other,
    }
}

/// The `Ordering` an order is.
pub open spec fn ordering_of(order: Order) -> Ordering {
    match order {
        Order::Less => Ordering::Less,
        Order::Equal => Ordering::Equal,
        Order::Greater => Ordering::Greater,
    }
}

fn to_ordering(order: Order) -> (r: Ordering)
    ensures
        r == ordering_of(order),
{
    match order {
        Order::Less => Ordering::Less,
        Order::Equal => Ordering::Equal,
        Order::Greater => Ordering::Greater,
    }
}

fn compare_ids(a: WindowId, b: WindowId) -> (r: Order)
    ensures
        r == id_order(a as int, b as int),
{
    if a < b {
        Order::Less
    } else if a > b {
        Order::Greater
    } else {
        Order::Equal
    }
}

fn title_rank_of(left: (&str, WindowId), right: (&str, WindowId)) -> (r: Order)
    ensures
        r == title_rank((left.0@, left.1), (right.0@, right.1)),
{
    let a = to_lowercase(left.0);
    let b = to_lowercase(right.0);
    match compare_text(a.as_str(), b.as_str()) {
        Order::Equal => compare_ids(left.1, right.1),
        other => other,
    }
}

fn window_rank_of(left: (&str, &str, WindowId), right: (&str, &str, WindowId)) -> (r: Order)
    ensures
        r == window_rank((left.0@, left.1@, left.2), (right.0@, right.1@, right.2)),
{
    let a = to_lowercase(left.0);
    let b = to_lowercase(right.0);
    match compare_text(a.as_str(), b.as_str()) {
        Order::Equal => title_rank_of((left.1, left.2), (right.1, right.2)),
        other => other,
    }
}

/// Windows by title, case aside, and by id when the titles agree.
pub fn title_order(left: (&str, WindowId), right: (&str, WindowId)) -> (r: Ordering)
    ensures
        r == ordering_of(title_rank((left.0@, left.1), (right.0@, right.1))),
{
    to_ordering(title_rank_of(left, right))
}

/// Windows by application, then by title within one, so an application's windows sit
/// together whatever they are called.
pub fn window_order(left: (&str, &str, WindowId), right: (&str, &str, WindowId)) -> (r:
    Ordering)
    ensures
        r == ordering_of(
            window_rank((left.0@, left.1@, left.2), (right.0@, right.1@, right.2)),
        ),
{
    to_ordering(window_rank_of(left, right))
}

/// A key a window is ranked by: its application's name, its title and its id.
pub type WindowKey = (Seq<char>, Seq<char>, WindowId);

/// Two windows are ranked one way exactly when they are ranked the other way the other
/// way round.
pub proof fn lemma_window_rank_flips(a: WindowKey, b: WindowKey)
    ensures
        window_rank(a, b) == Order::Greater <==> window_rank(b, a) == Order::Less,
{
    lemma_text_order_flips(lowercase(a.0), lowercase(b.0));
    lemma_text_order_flips(lowercase(b.0), lowercase(a.0));
    lemma_text_order_flips(lowercase(a.1), lowercase(b.1));
    lemma_text_order_flips(lowercase(b.1), lowercase(a.1));
}

/// The window ranking is transitive.
pub proof fn lemma_window_rank_transitive(a: WindowKey, b: WindowKey, c: WindowKey)
    requires
        window_rank(a, b) != Order::Greater,
        window_rank(b, c) != Order::Greater,
    ensures
        window_rank(a, c) != Order::Greater,
{
    let (na, nb, nc) = (lowercase(a.0), lowercase(b.0), lowercase(c.0));
    let (ta, tb, tc) = (lowercase(a.1), lowercase(b.1), lowercase(c.1));
    lemma_text_order_flips(na, nb);
    lemma_text_order_flips(nb, nc);
    lemma_text_order_flips(na, nc);
    lemma_text_order_flips(nc, na);
    lemma_text_order_flips(ta, tb);
    lemma_text_order_flips(tb, tc);
    lemma_text_order_flips(ta, tc);
    lemma_text_order_flips(tc, ta);
    if text_order(na, nb) != Order::Greater && text_order(nb, nc) != Order::Greater {
        lemma_text_order_transitive(na, nb, nc);
    }
    if text_order(ta, tb) != Order::Greater && text_order(tb, tc) != Order::Greater {
        lemma_text_order_transitive(ta, tb, tc);
    }
}

/// The key the panel ranks an application's window by.
pub open spec fn key_of(item: (&AppEntry, &Window)) -> WindowKey {
    (item.0.application.name@, item.1.title@, item.1.id)
}

/// Whether windows are listed in the panel's order.
pub open spec fn in_window_order(items: Seq<(&AppEntry, &Window)>) -> bool {
    forall|i: int, j: int|
        0 <= i < j < items.len() ==> window_rank(key_of(#[trigger] items[i]), key_of(
            #[trigger] items[j],
        )) != Order::Greater
}

/// Where a stable insertion puts `item` among windows in order: after every one not
/// ranked above it.
pub open spec fn window_insertion(sorted: Seq<(&AppEntry, &Window)>, item: (&AppEntry, &Window)) -> int
    decreases sorted.len(),
{
    if sorted.len() == 0 {
        0
    } else if window_rank(key_of(sorted[0]), key_of(item)) == Order::Greater {
        0
    } else {
        1 + window_insertion(sorted.drop_first(), item)
    }
}

/// Windows in the panel's order, those ranked alike in the order given: each inserted in
/// turn after every one before it not ranked above it.
pub open spec fn window_sorted<'a>(items: Seq<(&'a AppEntry, &'a Window)>) -> Seq<(&'a AppEntry, &'a Window)>
    decreases items.len(),
{
    if items.len() == 0 {
        items
    } else {
        let sorted = window_sorted(items.drop_last());
        sorted.insert(window_insertion(sorted, items.last()), items.last())
    }
}

proof fn lemma_window_insertion(sorted: Seq<(&AppEntry, &Window)>, item: (&AppEntry, &Window), p: int)
    requires
        0 <= p <= sorted.len(),
        forall|k: int| 0 <= k < p ==> window_rank(key_of(#[trigger] sorted[k]), key_of(item)) != Order::Greater,
        p == sorted.len() || window_rank(key_of(sorted[p]), key_of(item)) == Order::Greater,
    ensures
        window_insertion(sorted, item) == p,
    decreases p,
{
    if p > 0 {
        assert(window_rank(key_of(sorted[0]), key_of(item)) != Order::Greater);
        let rest = sorted.drop_first();
        assert forall|k: int| 0 <= k < p - 1 implies window_rank(key_of(#[trigger] rest[k]), key_of(item))
            != Order::Greater by {
            assert(rest[k] == sorted[k + 1]);
        }
        if p < sorted.len() {
            assert(rest[p - 1] == sorted[p]);
        }
        lemma_window_insertion(rest, item, p - 1);
    }
}

/// Windows put in the panel's order: by application, then title, then id.
pub fn sort_windows<'a>(items: Vec<(&'a AppEntry, &'a Window)>) -> (r: Vec<(&'a AppEntry, &'a Window)>)
    ensures
        r@.to_multiset() == items@.to_multiset(),
        in_window_order(r@),
        r@ == window_sorted(items@),
{
    broadcast use vstd::seq_lib::to_multiset_insert, vstd::seq_lib::to_multiset_build;

    let mut sorted: Vec<(&'a AppEntry, &'a Window)> = Vec::new();
    let mut i: usize = 0;
    assert(items@.take(0) =~= sorted@);
    while i < items.len()
        invariant
            i <= items@.len(),
            sorted@.to_multiset() == items@.take(i as int).to_multiset(),
            in_window_order(sorted@),
            sorted@ == window_sorted(items@.take(i as int)),
        decreases items@.len() - i,
    {
        let item = items[i];
        let mut p: usize = 0;
        while p < sorted.len() && window_rank_of(
            (sorted[p].0.application.name.as_str(), sorted[p].1.title.as_str(), sorted[p].1.id),
            (item.0.application.name.as_str(), item.1.title.as_str(), item.1.id),
        ) != Order::Greater
            invariant
                p <= sorted@.len(),
                forall|k: int|
                    0 <= k < p ==> window_rank(key_of(#[trigger] sorted@[k]), key_of(item))
                        != Order::Greater,
            decreases sorted@.len() - p,
        {
            p = p + 1;
        }
        let ghost before = sorted@;
        proof {
            lemma_window_insertion(before, item, p as int);
            assert(items@.take(i + 1).drop_last() =~= items@.take(i as int));
            assert(items@.take(i + 1).last() == item);
        }
        proof {
            assert forall|k: int| p <= k < before.len() implies window_rank(
                key_of(item),
                key_of(#[trigger] before[k]),
            ) != Order::Greater by {
                lemma_window_rank_flips(key_of(before[p as int]), key_of(item));
                if k > p {
                    assert(window_rank(key_of(before[p as int]), key_of(before[k]))
                        != Order::Greater);
                    lemma_window_rank_transitive(
                        key_of(item),
                        key_of(before[p as int]),
                        key_of(before[k]),
                    );
                }
            }
        }
        sorted.insert(p, item);
        proof {
            let after = sorted@;
            assert(after == before.insert(p as int, item));
            assert forall|x: int, y: int| 0 <= x < y < after.len() implies window_rank(
                key_of(#[trigger] after[x]),
                key_of(#[trigger] after[y]),
            ) != Order::Greater by {
                if x < p && y == p {
                } else if x < p && y > p {
                    assert(after[y] == before[y - 1]);
                } else if x == p {
                    assert(after[y] == before[y - 1]);
                } else if x > p {
                    assert(after[x] == before[x - 1]);
                    assert(after[y] == before[y - 1]);
                } else {
                }
            }
            assert(items@.take(i + 1) =~= items@.take(i as int).push(item));
            vstd::seq_lib::to_multiset_insert(before, p as int, item);
            vstd::seq_lib::to_multiset_build(items@.take(i as int), item);
            assert(after.to_multiset() == before.to_multiset().insert(item));
            assert(items@.take(i + 1).to_multiset() == items@.take(i as int).to_multiset().insert(
                item,
            ));
        }
        i = i + 1;
    }
    assert(items@.take(items@.len() as int) =~= items@);
    sorted
}

/// How many of these windows appear on a Space.
pub open spec fn count_on(windows: Seq<Window>, space: SpaceId) -> nat
    decreases windows.len(),
{
    if windows.len() == 0 {
        0
    } else {
        count_on(windows.drop_last(), space) + if windows.last().spaces@.contains(space) {
            1nat
        } else {
            0nat
        }
    }
}

/// How many windows of these applications appear on a Space.
pub open spec fn listed_count(applications: Seq<AppEntry>, space: SpaceId) -> nat
    decreases applications.len(),
{
    if applications.len() == 0 {
        0
    } else {
        listed_count(applications.drop_last(), space) + count_on(
            applications.last().windows@,
            space,
        )
    }
}

/// Whether an item is window `j` of application `i`.
pub open spec fn is_window_at(
    applications: Seq<AppEntry>,
    item: (&AppEntry, &Window),
    i: int,
    j: int,
) -> bool {
    &&& 0 <= i < applications.len()
    &&& 0 <= j < applications[i].windows@.len()
    &&& *item.0 == applications[i]
    &&& *item.1 == applications[i].windows@[j]
}

/// Whether a list holds exactly the windows of these applications on a Space, each once.
pub open spec fn lists_windows_on(
    items: Seq<(&AppEntry, &Window)>,
    applications: Seq<AppEntry>,
    space: SpaceId,
) -> bool {
    &&& forall|k: int|
        0 <= k < items.len() ==> #[trigger] items[k].1.spaces@.contains(space) && exists|
            i: int,
            j: int,
        | is_window_at(applications, items[k], i, j)
    &&& forall|i: int, j: int|
        0 <= i < applications.len() && 0 <= j < applications[i].windows@.len()
            && #[trigger] applications[i].windows@[j].spaces@.contains(space) ==> exists|k: int|
            0 <= k < items.len() && is_window_at(applications, #[trigger] items[k], i, j)
    &&& items.len() == listed_count(applications, space)
}

/// Whether a Space is among the ones listed.
pub fn holds_space(spaces: &Vec<SpaceId>, space: SpaceId) -> (r: bool)
    ensures
        r == spaces@.contains(space),
{
    let mut i: usize = 0;
    while i < spaces.len()
        invariant
            i <= spaces@.len(),
            forall|k: int| 0 <= k < i ==> spaces@[k] != space,
        decreases spaces@.len() - i,
    {
        if spaces[i] == space {
            assert(spaces@[i as int] == space);
            return true;
        }
        i = i + 1;
    }
    false
}

/// The places of the windows on a Space among these windows of application `i`, in order.
pub open spec fn places_in(windows: Seq<Window>, i: int, space: SpaceId) -> Seq<(int, int)>
    decreases windows.len(),
{
    if windows.len() == 0 {
        Seq::empty()
    } else {
        let earlier = places_in(windows.drop_last(), i, space);
        if windows.last().spaces@.contains(space) {
            earlier.push((i, windows.len() - 1))
        } else {
            earlier
        }
    }
}

/// The places of the windows on a Space among these applications' windows, in order.
pub open spec fn places_on(applications: Seq<AppEntry>, space: SpaceId) -> Seq<(int, int)>
    decreases applications.len(),
{
    if applications.len() == 0 {
        Seq::empty()
    } else {
        places_on(applications.drop_last(), space) + places_in(
            applications.last().windows@,
            applications.len() - 1,
            space,
        )
    }
}

proof fn lemma_places_in(windows: Seq<Window>, i: int, space: SpaceId)
    ensures
        places_in(windows, i, space).len() == count_on(windows, space),
        forall|k: int|
            0 <= k < places_in(windows, i, space).len() ==> {
                let p = #[trigger] places_in(windows, i, space)[k];
                &&& p.0 == i
                &&& 0 <= p.1 < windows.len()
                &&& windows[p.1].spaces@.contains(space)
            },
        forall|b: int|
            0 <= b < windows.len() && #[trigger] windows[b].spaces@.contains(space) ==> exists|
                k: int,
            |
                0 <= k < places_in(windows, i, space).len() && #[trigger] places_in(
                    windows,
                    i,
                    space,
                )[k] == (i, b),
    decreases windows.len(),
{
    if windows.len() > 0 {
        let shorter = windows.drop_last();
        lemma_places_in(shorter, i, space);
        let earlier = places_in(shorter, i, space);
        assert forall|b: int|
            0 <= b < windows.len() && #[trigger] windows[b].spaces@.contains(space) implies exists|
                k: int,
            | 0 <= k < places_in(windows, i, space).len() && #[trigger] places_in(windows, i, space)[k] == (i, b) by {
            if b == windows.len() - 1 {
                assert(places_in(windows, i, space)[earlier.len() as int] == (i, b));
            } else {
                assert(shorter[b] == windows[b]);
                let k = choose|k: int| 0 <= k < earlier.len() && #[trigger] earlier[k] == (i, b);
                assert(places_in(windows, i, space)[k] == (i, b));
            }
        }
    }
}

/// Whether place `p` comes before place `q`: an earlier application, or an earlier
/// window of the same one.
pub open spec fn place_before(p: (int, int), q: (int, int)) -> bool {
    p.0 < q.0 || (p.0 == q.0 && p.1 < q.1)
}

proof fn lemma_places_in_rise(windows: Seq<Window>, i: int, space: SpaceId)
    ensures
        forall|a: int, b: int|
            0 <= a < b < places_in(windows, i, space).len() ==> (#[trigger] places_in(
                windows,
                i,
                space,
            )[a]).1 < (#[trigger] places_in(windows, i, space)[b]).1,
    decreases windows.len(),
{
    if windows.len() > 0 {
        let shorter = windows.drop_last();
        lemma_places_in_rise(shorter, i, space);
        lemma_places_in(shorter, i, space);
        let earlier = places_in(shorter, i, space);
        let all = places_in(windows, i, space);
        assert forall|a: int, b: int| 0 <= a < b < all.len() implies (#[trigger] all[a]).1 < (
        #[trigger] all[b]).1 by {
            assert(all[a] == earlier[a]);
            if b < earlier.len() {
                assert(all[b] == earlier[b]);
            } else {
                assert(all[b] == (i, windows.len() - 1));
                assert(earlier[a].1 < shorter.len());
            }
        }
    }
}

/// The places of the windows on a Space come in order, each once: the panel's list of
/// a Space holds each of its windows once.
pub proof fn lemma_places_once(applications: Seq<AppEntry>, space: SpaceId)
    ensures
        forall|a: int, b: int|
            0 <= a < b < places_on(applications, space).len() ==> place_before(
                #[trigger] places_on(applications, space)[a],
                #[trigger] places_on(applications, space)[b],
            ),
        forall|a: int, b: int|
            0 <= a < b < places_on(applications, space).len() ==> #[trigger] places_on(
                applications,
                space,
            )[a] != #[trigger] places_on(applications, space)[b],
    decreases applications.len(),
{
    if applications.len() > 0 {
        let shorter = applications.drop_last();
        let last = applications.len() - 1;
        lemma_places_once(shorter, space);
        lemma_places_on(shorter, space);
        lemma_places_in(applications.last().windows@, last, space);
        lemma_places_in_rise(applications.last().windows@, last, space);
        let front = places_on(shorter, space);
        let back = places_in(applications.last().windows@, last, space);
        let all = places_on(applications, space);
        assert(all == front + back);
        assert forall|a: int, b: int| 0 <= a < b < all.len() implies place_before(
            #[trigger] all[a],
            #[trigger] all[b],
        ) by {
            if b < front.len() {
                assert(all[a] == front[a] && all[b] == front[b]);
            } else if a < front.len() {
                assert(all[a] == front[a] && all[b] == back[b - front.len()]);
                assert(front[a].0 < shorter.len());
            } else {
                assert(all[a] == back[a - front.len()] && all[b] == back[b - front.len()]);
            }
        }
    }
}

proof fn lemma_places_on(applications: Seq<AppEntry>, space: SpaceId)
    ensures
        places_on(applications, space).len() == listed_count(applications, space),
        forall|k: int|
            0 <= k < places_on(applications, space).len() ==> {
                let p = #[trigger] places_on(applications, space)[k];
                &&& 0 <= p.0 < applications.len()
                &&& 0 <= p.1 < applications[p.0].windows@.len()
                &&& applications[p.0].windows@[p.1].spaces@.contains(space)
            },
        forall|a: int, b: int|
            0 <= a < applications.len() && 0 <= b < applications[a].windows@.len()
                && #[trigger] applications[a].windows@[b].spaces@.contains(space) ==> exists|
                k: int,
            |
                0 <= k < places_on(applications, space).len() && #[trigger] places_on(
                    applications,
                    space,
                )[k] == (a, b),
    decreases applications.len(),
{
    if applications.len() > 0 {
        let shorter = applications.drop_last();
        let last = applications.len() - 1;
        lemma_places_on(shorter, space);
        lemma_places_in(applications.last().windows@, last, space);
        let front = places_on(shorter, space);
        let back = places_in(applications.last().windows@, last, space);
        let all = places_on(applications, space);
        assert(all == front + back);
        assert forall|k: int| 0 <= k < all.len() implies {
            let p = #[trigger] all[k];
            &&& 0 <= p.0 < applications.len()
            &&& 0 <= p.1 < applications[p.0].windows@.len()
            &&& applications[p.0].windows@[p.1].spaces@.contains(space)
        } by {
            if k < front.len() {
                assert(all[k] == front[k]);
                assert(shorter[front[k].0] == applications[front[k].0]);
            } else {
                assert(all[k] == back[k - front.len()]);
            }
        }
        assert forall|a: int, b: int|
            0 <= a < applications.len() && 0 <= b < applications[a].windows@.len()
                && #[trigger] applications[a].windows@[b].spaces@.contains(space) implies exists|
                k: int,
            | 0 <= k < all.len() && #[trigger] all[k] == (a, b) by {
            if a == last {
                assert(applications.last() == applications[a]);
                let k = choose|k: int| 0 <= k < back.len() && #[trigger] back[k] == (a, b);
                assert(all[front.len() + k] == (a, b));
            } else {
                assert(shorter[a] == applications[a]);
                let k = choose|k: int| 0 <= k < front.len() && #[trigger] front[k] == (a, b);
                assert(all[k] == (a, b));
            }
        }
    }
}

/// Whether each item is the window at the place listed for it.
pub open spec fn at_places(
    items: Seq<(&AppEntry, &Window)>,
    applications: Seq<AppEntry>,
    places: Seq<(int, int)>,
) -> bool {
    &&& items.len() == places.len()
    &&& forall|k: int|
        0 <= k < items.len() ==> is_window_at(applications, #[trigger] items[k], places[k].0, places[k].1)
}

/// The windows of these applications on one Space, in the order the applications and
/// their windows are listed.
fn windows_listed_on<'a>(applications: &'a Vec<AppEntry>, space: SpaceId) -> (r: Vec<
    (&'a AppEntry, &'a Window),
>)
    ensures
        lists_windows_on(r@, applications@, space),
        at_places(r@, applications@, places_on(applications@, space)),
{
    let mut items: Vec<(&'a AppEntry, &'a Window)> = Vec::new();
    let mut i: usize = 0;
    assert(applications@.take(0) =~= Seq::<AppEntry>::empty());
    while i < applications.len()
        invariant
            i <= applications@.len(),
            at_places(items@, applications@, places_on(applications@.take(i as int), space)),
        decreases applications@.len() - i,
    {
        let entry = &applications[i];
        let ghost front = places_on(applications@.take(i as int), space);
        let mut j: usize = 0;
        assert(entry.windows@.take(0) =~= Seq::<Window>::empty());
        assert(front + places_in(Seq::<Window>::empty(), i as int, space) =~= front);
        while j < entry.windows.len()
            invariant
                i < applications@.len(),
                *entry == applications@[i as int],
                j <= entry.windows@.len(),
                at_places(
                    items@,
                    applications@,
                    front + places_in(entry.windows@.take(j as int), i as int, space),
                ),
            decreases entry.windows@.len() - j,
        {
            let window = &entry.windows[j];
            let ghost places = front + places_in(entry.windows@.take(j as int), i as int, space);
            assert(entry.windows@.take(j + 1).drop_last() =~= entry.windows@.take(j as int));
            assert(entry.windows@.take(j + 1).last() == *window);
            if holds_space(&window.spaces, space) {
                items.push((entry, window));
                assert(front + places_in(entry.windows@.take(j + 1), i as int, space) =~= places.push(
                    (i as int, j as int),
                ));
            } else {
                assert(front + places_in(entry.windows@.take(j + 1), i as int, space) =~= places);
            }
            j = j + 1;
        }
        assert(entry.windows@.take(entry.windows@.len() as int) =~= entry.windows@);
        assert(applications@.take(i + 1).drop_last() =~= applications@.take(i as int));
        assert(applications@.take(i + 1).last() == *entry);
        i = i + 1;
    }
    assert(applications@.take(applications@.len() as int) =~= applications@);
    proof {
        let places = places_on(applications@, space);
        lemma_places_on(applications@, space);
        assert forall|k: int| 0 <= k < items@.len() implies #[trigger] items@[k].1.spaces@.contains(
            space,
        ) && exists|a: int, b: int| is_window_at(applications@, items@[k], a, b) by {
            assert(is_window_at(applications@, items@[k], places[k].0, places[k].1));
        }
        assert forall|a: int, b: int|
            0 <= a < applications@.len() && 0 <= b < applications@[a].windows@.len()
                && #[trigger] applications@[a].windows@[b].spaces@.contains(space) implies exists|
                k: int,
            | 0 <= k < items@.len() && is_window_at(applications@, #[trigger] items@[k], a, b) by {
            let k = choose|k: int| 0 <= k < places.len() && #[trigger] places[k] == (a, b);
            assert(is_window_at(applications@, items@[k], a, b));
        }
    }
    items
}

/// A list reordered holds the same windows.
proof fn lemma_reordered_lists_the_same(
    a: Seq<(&AppEntry, &Window)>,
    b: Seq<(&AppEntry, &Window)>,
    applications: Seq<AppEntry>,
    space: SpaceId,
)
    requires
        a.to_multiset() == b.to_multiset(),
        lists_windows_on(a, applications, space),
    ensures
        lists_windows_on(b, applications, space),
{
    vstd::seq_lib::to_multiset_len(a);
    vstd::seq_lib::to_multiset_len(b);
    assert(b.len() == a.len());
    assert forall|k: int| 0 <= k < b.len() implies #[trigger] b[k].1.spaces@.contains(space)
        && exists|i: int, j: int| is_window_at(applications, b[k], i, j) by {
        vstd::seq_lib::to_multiset_contains(b, b[k]);
        vstd::seq_lib::to_multiset_contains(a, b[k]);
        assert(b.contains(b[k]));
        let m = choose|m: int| 0 <= m < a.len() && a[m] == b[k];
        assert(a[m].1.spaces@.contains(space));
        let (i, j) = choose|i: int, j: int| is_window_at(applications, a[m], i, j);
        assert(is_window_at(applications, b[k], i, j));
    }
    assert forall|x: int, y: int|
        0 <= x < applications.len() && 0 <= y < applications[x].windows@.len()
            && #[trigger] applications[x].windows@[y].spaces@.contains(space) implies exists|
            k: int,
        | 0 <= k < b.len() && is_window_at(applications, #[trigger] b[k], x, y) by {
        let m = choose|m: int| 0 <= m < a.len() && is_window_at(applications, #[trigger] a[m], x, y);
        vstd::seq_lib::to_multiset_contains(a, a[m]);
        vstd::seq_lib::to_multiset_contains(b, a[m]);
        assert(a.contains(a[m]));
        let k = choose|k: int| 0 <= k < b.len() && b[k] == a[m];
        assert(is_window_at(applications, b[k], x, y));
    }
}

/// The places of the applications with no window, in order.
pub open spec fn windowless_places(applications: Seq<AppEntry>) -> Seq<int>
    decreases applications.len(),
{
    if applications.len() == 0 {
        Seq::empty()
    } else {
        let earlier = windowless_places(applications.drop_last());
        if applications.last().windows@.len() == 0 {
            earlier.push(applications.len() - 1)
        } else {
            earlier
        }
    }
}

proof fn lemma_windowless_places(applications: Seq<AppEntry>)
    ensures
        forall|k: int|
            0 <= k < windowless_places(applications).len() ==> {
                let p = #[trigger] windowless_places(applications)[k];
                &&& 0 <= p < applications.len()
                &&& applications[p].windows@.len() == 0
            },
        forall|i: int|
            0 <= i < applications.len() && #[trigger] applications[i].windows@.len() == 0
                ==> exists|k: int|
                0 <= k < windowless_places(applications).len() && #[trigger] windowless_places(
                    applications,
                )[k] == i,
    decreases applications.len(),
{
    if applications.len() > 0 {
        let shorter = applications.drop_last();
        lemma_windowless_places(shorter);
        let earlier = windowless_places(shorter);
        let all = windowless_places(applications);
        assert forall|k: int| 0 <= k < all.len() implies {
            let p = #[trigger] all[k];
            &&& 0 <= p < applications.len()
            &&& applications[p].windows@.len() == 0
        } by {
            if k < earlier.len() {
                assert(all[k] == earlier[k]);
                assert(shorter[earlier[k]] == applications[earlier[k]]);
            }
        }
        assert forall|i: int|
            0 <= i < applications.len() && #[trigger] applications[i].windows@.len() == 0
                implies exists|k: int| 0 <= k < all.len() && #[trigger] all[k] == i by {
            if i == applications.len() - 1 {
                assert(all[earlier.len() as int] == i);
            } else {
                assert(shorter[i] == applications[i]);
                let k = choose|k: int| 0 <= k < earlier.len() && #[trigger] earlier[k] == i;
                assert(all[k] == i);
            }
        }
    }
}

/// Whether a list holds exactly the applications with no window, each once.
pub open spec fn lists_windowless(items: Seq<&AppEntry>, applications: Seq<AppEntry>) -> bool {
    &&& forall|k: int|
        0 <= k < items.len() ==> (#[trigger] items[k]).windows@.len() == 0 && exists|i: int|
            0 <= i < applications.len() && applications[i] == *items[k]
    &&& forall|i: int|
        0 <= i < applications.len() && #[trigger] applications[i].windows@.len() == 0 ==> exists|
            k: int,
        | 0 <= k < items.len() && *#[trigger] items[k] == applications[i]
    &&& items.len() == windowless_places(applications).len()
}

/// The order of applications by name, case aside.
pub open spec fn name_rank(a: &AppEntry, b: &AppEntry) -> Order {
    text_order(lowercase(a.application.name@), lowercase(b.application.name@))
}

/// Whether applications are listed by name, case aside.
pub open spec fn in_name_order(items: Seq<&AppEntry>) -> bool {
    forall|i: int, j: int|
        0 <= i < j < items.len() ==> name_rank(#[trigger] items[i], #[trigger] items[j])
            != Order::Greater
}

/// Where a stable insertion puts `item` among applications in name order: after every
/// one not named after it.
pub open spec fn name_insertion(sorted: Seq<&AppEntry>, item: &AppEntry) -> int
    decreases sorted.len(),
{
    if sorted.len() == 0 {
        0
    } else if name_rank(sorted[0], item) == Order::Greater {
        0
    } else {
        1 + name_insertion(sorted.drop_first(), item)
    }
}

/// Applications in name order, case aside, those named alike in the order given.
pub open spec fn name_sorted<'a>(items: Seq<&'a AppEntry>) -> Seq<&'a AppEntry>
    decreases items.len(),
{
    if items.len() == 0 {
        items
    } else {
        let sorted = name_sorted(items.drop_last());
        sorted.insert(name_insertion(sorted, items.last()), items.last())
    }
}

proof fn lemma_name_insertion(sorted: Seq<&AppEntry>, item: &AppEntry, p: int)
    requires
        0 <= p <= sorted.len(),
        forall|k: int| 0 <= k < p ==> name_rank(#[trigger] sorted[k], item) != Order::Greater,
        p == sorted.len() || name_rank(sorted[p], item) == Order::Greater,
    ensures
        name_insertion(sorted, item) == p,
    decreases p,
{
    if p > 0 {
        assert(name_rank(sorted[0], item) != Order::Greater);
        let rest = sorted.drop_first();
        assert forall|k: int| 0 <= k < p - 1 implies name_rank(#[trigger] rest[k], item)
            != Order::Greater by {
            assert(rest[k] == sorted[k + 1]);
        }
        if p < sorted.len() {
            assert(rest[p - 1] == sorted[p]);
        }
        lemma_name_insertion(rest, item, p - 1);
    }
}

/// Applications put in order by name, case aside; those named alike keep their order.
fn sort_by_name<'a>(items: Vec<&'a AppEntry>) -> (r: Vec<&'a AppEntry>)
    ensures
        r@.to_multiset() == items@.to_multiset(),
        in_name_order(r@),
        r@ == name_sorted(items@),
{
    let mut sorted: Vec<&'a AppEntry> = Vec::new();
    let mut i: usize = 0;
    assert(items@.take(0) =~= sorted@);
    while i < items.len()
        invariant
            i <= items@.len(),
            sorted@.to_multiset() == items@.take(i as int).to_multiset(),
            in_name_order(sorted@),
            sorted@ == name_sorted(items@.take(i as int)),
        decreases items@.len() - i,
    {
        let item = items[i];
        let key = to_lowercase(item.application.name.as_str());
        let mut p: usize = 0;
        while p < sorted.len() && compare_text(
            to_lowercase(sorted[p].application.name.as_str()).as_str(),
            key.as_str(),
        ) != Order::Greater
            invariant
                p <= sorted@.len(),
                key@ == lowercase(item.application.name@),
                forall|k: int| 0 <= k < p ==> name_rank(#[trigger] sorted@[k], item) != Order::Greater,
            decreases sorted@.len() - p,
        {
            p = p + 1;
        }
        let ghost before = sorted@;
        proof {
            lemma_name_insertion(before, item, p as int);
            assert(items@.take(i + 1).drop_last() =~= items@.take(i as int));
            assert(items@.take(i + 1).last() == item);
        }
        proof {
            assert forall|k: int| p <= k < before.len() implies name_rank(
                item,
                #[trigger] before[k],
            ) != Order::Greater by {
                let (x, y) = (lowercase(before[p as int].application.name@), lowercase(item.application.name@));
                lemma_text_order_flips(x, y);
                if k > p {
                    let z = lowercase(before[k].application.name@);
                    assert(name_rank(before[p as int], before[k]) != Order::Greater);
                    lemma_text_order_transitive(y, x, z);
                }
            }
        }
        sorted.insert(p, item);
        proof {
            let after = sorted@;
            assert(after == before.insert(p as int, item));
            assert forall|x: int, y: int| 0 <= x < y < after.len() implies name_rank(
                #[trigger] after[x],
                #[trigger] after[y],
            ) != Order::Greater by {
                if x < p && y == p {
                } else if x < p && y > p {
                    assert(after[y] == before[y - 1]);
                } else if x == p {
                    assert(after[y] == before[y - 1]);
                } else if x > p {
                    assert(after[x] == before[x - 1]);
                    assert(after[y] == before[y - 1]);
                }
            }
            vstd::seq_lib::to_multiset_insert(before, p as int, item);
            vstd::seq_lib::to_multiset_build(items@.take(i as int), item);
            assert(items@.take(i + 1) =~= items@.take(i as int).push(item));
        }
        i = i + 1;
    }
    assert(items@.take(items@.len() as int) =~= items@);
    sorted
}

/// Whether `found` is the applications with no window, in the order listed.
pub open spec fn is_windowless_of(found: Seq<&AppEntry>, applications: Seq<AppEntry>) -> bool {
    &&& found.len() == windowless_places(applications).len()
    &&& forall|k: int|
        0 <= k < found.len() ==> *#[trigger] found[k] == applications[windowless_places(
            applications,
        )[k]]
}

/// The applications with no window, in the order listed.
fn windowless_in<'a>(applications: &'a Vec<AppEntry>) -> (r: Vec<&'a AppEntry>)
    ensures
        is_windowless_of(r@, applications@),
{
    let mut entries: Vec<&AppEntry> = Vec::new();
    let mut i: usize = 0;
    assert(applications@.take(0) =~= Seq::<AppEntry>::empty());
    while i < applications.len()
        invariant
            i <= applications@.len(),
            entries@.len() == windowless_places(applications@.take(i as int)).len(),
            forall|k: int|
                0 <= k < entries@.len() ==> *#[trigger] entries@[k] == applications@[windowless_places(
                    applications@.take(i as int),
                )[k]],
        decreases applications@.len() - i,
    {
        let ghost places = windowless_places(applications@.take(i as int));
        assert(applications@.take(i + 1).drop_last() =~= applications@.take(i as int));
        if applications[i].windows.len() == 0 {
            entries.push(&applications[i]);
            assert(windowless_places(applications@.take(i + 1)) =~= places.push(i as int));
        }
        i = i + 1;
    }
    assert(applications@.take(applications@.len() as int) =~= applications@);
    entries
}

/// The windowless applications, put in name order, are still the windowless ones, each
/// once.
proof fn lemma_windowless_listed(
    unsorted: Seq<&AppEntry>,
    sorted: Seq<&AppEntry>,
    applications: Seq<AppEntry>,
)
    requires
        is_windowless_of(unsorted, applications),
        sorted.to_multiset() == unsorted.to_multiset(),
        in_name_order(sorted),
        sorted == name_sorted(unsorted),
    ensures
        lists_windowless(sorted, applications),
        in_name_order(sorted),
        exists|found: Seq<&AppEntry>|
            is_windowless_of(found, applications) && sorted == name_sorted(found),
{
    let apps = applications;
    let places = windowless_places(apps);
    lemma_windowless_places(apps);
    assert forall|k: int| 0 <= k < unsorted.len() implies (#[trigger] unsorted[k]).windows@.len()
        == 0 && exists|i: int| 0 <= i < apps.len() && apps[i] == *unsorted[k] by {
        assert(apps[places[k]] == *unsorted[k]);
    }
    let b = sorted;
    vstd::seq_lib::to_multiset_len(unsorted);
    vstd::seq_lib::to_multiset_len(b);
    assert(b.len() == unsorted.len());
    assert forall|k: int| 0 <= k < b.len() implies (#[trigger] b[k]).windows@.len() == 0 && exists|
        i: int,
    | 0 <= i < apps.len() && apps[i] == *b[k] by {
        vstd::seq_lib::to_multiset_contains(b, b[k]);
        vstd::seq_lib::to_multiset_contains(unsorted, b[k]);
        assert(b.contains(b[k]));
        let m = choose|m: int| 0 <= m < unsorted.len() && unsorted[m] == b[k];
        assert(unsorted[m].windows@.len() == 0);
    }
    assert forall|i: int|
        0 <= i < apps.len() && #[trigger] apps[i].windows@.len() == 0 implies exists|k: int|
        0 <= k < b.len() && *#[trigger] b[k] == apps[i] by {
        let p = choose|p: int| 0 <= p < places.len() && #[trigger] places[p] == i;
        assert(*unsorted[p] == apps[i]);
        vstd::seq_lib::to_multiset_contains(unsorted, unsorted[p]);
        vstd::seq_lib::to_multiset_contains(b, unsorted[p]);
        assert(unsorted.contains(unsorted[p]));
        let k = choose|k: int| 0 <= k < b.len() && b[k] == unsorted[p];
        assert(*b[k] == apps[i]);
    }
}

/// Everything the panel draws, as of the last change macOS reported.
pub struct Desktop {
    /// Every Space, display by display, in Mission Control order.
    pub spaces: Vec<Space>,
    pub applications: Vec<AppEntry>,
    /// The Space each display shows, by display uuid.
    pub showing: Vec<(String, SpaceId)>,
}

/// The Space a display shows, by the first entry for it.
pub open spec fn shown_on(showing: Seq<(String, SpaceId)>, uuid: Seq<char>) -> Option<SpaceId>
    decreases showing.len(),
{
    if showing.len() == 0 {
        None
    } else if showing[0].0@ == uuid {
        Some(showing[0].1)
    } else {
        shown_on(showing.drop_first(), uuid)
    }
}

/// Whether window `j` of application `i` is the first with this id, in listing order.
pub open spec fn first_with_id(applications: Seq<AppEntry>, id: WindowId, i: int, j: int) -> bool {
    &&& 0 <= i < applications.len()
    &&& 0 <= j < applications[i].windows@.len()
    &&& applications[i].windows@[j].id == id
    &&& forall|a: int, b: int|
        0 <= a < i && 0 <= b < applications[a].windows@.len() ==> #[trigger] applications[a].windows@[b].id
            != id
    &&& forall|b: int| 0 <= b < j ==> #[trigger] applications[i].windows@[b].id != id
}

impl Desktop {
    /// The Spaces of one display, in Mission Control order.
    pub fn spaces_of(&self, display_uuid: &str) -> (r: Vec<&Space>)
        ensures
            r@.map_values(|space: &Space| *space) == self.spaces@.filter(
                |space: Space| space.display_uuid@ == display_uuid@,
            ),
    {
        let ghost pred = |space: Space| space.display_uuid@ == display_uuid@;
        let mut found: Vec<&Space> = Vec::new();
        let mut i: usize = 0;
        assert(self.spaces@.take(0).filter(pred) =~= Seq::<Space>::empty());
        while i < self.spaces.len()
            invariant
                i <= self.spaces@.len(),
                pred == (|space: Space| space.display_uuid@ == display_uuid@),
                found@.map_values(|space: &Space| *space) == self.spaces@.take(i as int).filter(pred),
            decreases self.spaces@.len() - i,
        {
            reveal_with_fuel(Seq::<_>::filter, 1);
            assert(self.spaces@.take(i + 1).drop_last() =~= self.spaces@.take(i as int));
            let space = &self.spaces[i];
            let ghost before = found@;
            if same_text(space.display_uuid.as_str(), display_uuid) {
                found.push(space);
                assert(found@.map_values(|space: &Space| *space) =~= before.map_values(
                    |space: &Space| *space,
                ).push(*space));
            }
            i = i + 1;
        }
        assert(self.spaces@.take(self.spaces@.len() as int) =~= self.spaces@);
        found
    }

    /// The desktops of one display a window could move to: every Space of it but the
    /// full-screen ones, which belong to one window.
    pub fn desktops_of(&self, display_uuid: &str) -> (r: Vec<&Space>)
        ensures
            r@.map_values(|space: &Space| *space) == self.spaces@.filter(
                |space: Space| space.display_uuid@ == display_uuid@,
            ).filter(|space: Space| space.kind == SpaceKind::Desktop),
    {
        let spaces = self.spaces_of(display_uuid);
        let ghost all = spaces@.map_values(|space: &Space| *space);
        let ghost pred = |space: Space| space.kind == SpaceKind::Desktop;
        let mut found: Vec<&Space> = Vec::new();
        let mut i: usize = 0;
        assert(all.take(0).filter(pred) =~= Seq::<Space>::empty());
        while i < spaces.len()
            invariant
                i <= spaces@.len(),
                all == spaces@.map_values(|space: &Space| *space),
                pred == (|space: Space| space.kind == SpaceKind::Desktop),
                found@.map_values(|space: &Space| *space) == all.take(i as int).filter(pred),
            decreases spaces@.len() - i,
        {
            reveal_with_fuel(Seq::<_>::filter, 1);
            assert(all.take(i + 1).drop_last() =~= all.take(i as int));
            let space = spaces[i];
            let ghost before = found@;
            if space.kind == SpaceKind::Desktop {
                found.push(space);
                assert(found@.map_values(|space: &Space| *space) =~= before.map_values(
                    |space: &Space| *space,
                ).push(*space));
            }
            i = i + 1;
        }
        assert(all.take(all.len() as int) =~= all);
        found
    }

    /// A window by its id, whichever application it belongs to: the first listed.
    pub fn window(&self, id: WindowId) -> (r: Option<&Window>)
        ensures
            r is None <==> forall|i: int, j: int|
                0 <= i < self.applications@.len() && 0 <= j
                    < self.applications@[i].windows@.len() ==> #[trigger] self.applications@[i].windows@[j].id
                    != id,
            r matches Some(window) ==> exists|i: int, j: int|
                first_with_id(self.applications@, id, i, j) && *window
                    == self.applications@[i].windows@[j],
    {
        let mut i: usize = 0;
        while i < self.applications.len()
            invariant
                i <= self.applications@.len(),
                forall|a: int, b: int|
                    0 <= a < i && 0 <= b < self.applications@[a].windows@.len()
                        ==> #[trigger] self.applications@[a].windows@[b].id != id,
            decreases self.applications@.len() - i,
        {
            let entry = &self.applications[i];
            let mut j: usize = 0;
            while j < entry.windows.len()
                invariant
                    i < self.applications@.len(),
                    *entry == self.applications@[i as int],
                    j <= entry.windows@.len(),
                    forall|a: int, b: int|
                        0 <= a < i && 0 <= b < self.applications@[a].windows@.len()
                            ==> #[trigger] self.applications@[a].windows@[b].id != id,
                    forall|b: int| 0 <= b < j ==> #[trigger] entry.windows@[b].id != id,
                decreases entry.windows@.len() - j,
            {
                if entry.windows[j].id == id {
                    assert(first_with_id(self.applications@, id, i as int, j as int));
                    return Some(&entry.windows[j]);
                }
                j = j + 1;
            }
            i = i + 1;
        }
        None
    }

    /// The Space a display shows, by its uuid.
    pub fn shown_space(&self, display_uuid: &str) -> (r: Option<SpaceId>)
        ensures
            r == shown_on(self.showing@, display_uuid@),
    {
        let mut i: usize = 0;
        assert(self.showing@.skip(0) =~= self.showing@);
        while i < self.showing.len()
            invariant
                i <= self.showing@.len(),
                shown_on(self.showing@, display_uuid@) == shown_on(self.showing@.skip(i as int), display_uuid@),
            decreases self.showing@.len() - i,
        {
            assert(self.showing@.skip(i as int).drop_first() =~= self.showing@.skip(i + 1));
            if same_text(self.showing[i].0.as_str(), display_uuid) {
                return Some(self.showing[i].1);
            }
            i = i + 1;
        }
        None
    }

    /// Whether a Space is the one its display is showing.
    pub fn is_showing(&self, space: &Space) -> (r: bool)
        ensures
            r == (shown_on(self.showing@, space.display_uuid@) == Some(space.id)),
    {
        match self.shown_space(space.display_uuid.as_str()) {
            Some(id) => id == space.id,
            None => false,
        }
    }

    /// The Space a display is showing, among those listed.
    pub fn showing_on(&self, display_uuid: &str) -> (r: Option<&Space>)
        ensures
            match shown_on(self.showing@, display_uuid@) {
                None => r is None,
                Some(id) => match r {
                    Some(space) => space.id == id && exists|k: int|
                        0 <= k < self.spaces@.len() && self.spaces@[k] == *space && forall|m: int|
                            0 <= m < k ==> #[trigger] self.spaces@[m].id != id,
                    None => forall|k: int| 0 <= k < self.spaces@.len() ==> #[trigger] self.spaces@[k].id != id,
                },
            },
    {
        let id = match self.shown_space(display_uuid) {
            Some(id) => id,
            None => return None,
        };
        let mut k: usize = 0;
        while k < self.spaces.len()
            invariant
                k <= self.spaces@.len(),
                Some(id) == shown_on(self.showing@, display_uuid@),
                forall|m: int| 0 <= m < k ==> #[trigger] self.spaces@[m].id != id,
            decreases self.spaces@.len() - k,
        {
            if self.spaces[k].id == id {
                assert(0 <= k < self.spaces@.len() && self.spaces@[k as int] == self.spaces@[k as int]);
                return Some(&self.spaces[k]);
            }
            k = k + 1;
        }
        None
    }

    /// Whether a display is showing a full-screen window's Space, which is when the
    /// panel keeps out of the way.
    pub fn is_full_screen(&self, display_uuid: &str) -> (r: bool)
        ensures
            r == exists|k: int|
                0 <= k < self.spaces@.len() && Some(self.spaces@[k].id) == shown_on(
                    self.showing@,
                    display_uuid@,
                ) && self.spaces@[k].kind == SpaceKind::Fullscreen && forall|m: int|
                    0 <= m < k ==> #[trigger] self.spaces@[m].id != self.spaces@[k].id,
    {
        match self.showing_on(display_uuid) {
            Some(space) => space.kind == SpaceKind::Fullscreen,
            None => false,
        }
    }

    /// Applications with nothing to switch to, alphabetically, case aside: they can only
    /// be activated, not focused window by window.
    pub fn windowless(&self) -> (r: Vec<&AppEntry>)
        ensures
            lists_windowless(r@, self.applications@),
            in_name_order(r@),
            exists|found: Seq<&AppEntry>|
                is_windowless_of(found, self.applications@) && r@ == name_sorted(found),
    {
        let entries = windowless_in(&self.applications);
        let ghost unsorted = entries@;
        let sorted = sort_by_name(entries);
        proof {
            lemma_windowless_listed(unsorted, sorted@, self.applications@);
        }
        sorted
    }

    /// The windows on one Space, by application, then title, then id: a window keeps its
    /// place whatever the user does with it, so the hand learns where things are.
    pub fn windows_on(&self, space: SpaceId) -> (r: Vec<(&AppEntry, &Window)>)
        ensures
            lists_windows_on(r@, self.applications@, space),
            in_window_order(r@),
            exists|listed: Seq<(&AppEntry, &Window)>|
                at_places(listed, self.applications@, places_on(self.applications@, space))
                    && r@ == window_sorted(listed) && r@.to_multiset() == listed.to_multiset(),
    {
        let listed = windows_listed_on(&self.applications, space);
        let ghost unsorted = listed@;
        let sorted = sort_windows(listed);
        assert(at_places(unsorted, self.applications@, places_on(self.applications@, space))
            && sorted@ == window_sorted(unsorted) && sorted@.to_multiset() == unsorted.to_multiset());
        proof {
            lemma_reordered_lists_the_same(unsorted, sorted@, self.applications@, space);
        }
        sorted
    }
}

} // verus!
