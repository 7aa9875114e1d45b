//! One panel per display: which panels to close when displays go, and which displays
//! still need one opened.

use vstd::prelude::*;

verus! {

/// Whether some display ids hold `id`.
fn has_display(ids: &Vec<u32>, id: u32) -> (r: bool)
    ensures
        r == ids@.contains(id),
{
    let mut k: usize = 0;
    while k < ids.len()
        invariant
            k <= ids@.len(),
            forall|m: int| 0 <= m < k ==> ids@[m] != id,
        decreases ids@.len() - k,
    {
        if ids[k] == id {
            assert(ids@[k as int] == id);
            return true;
        }
        k = k + 1;
    }
    false
}

/// The places, in order, of the panels whose display is no longer among `screens`.
pub fn gone_panels(panels: &Vec<u32>, screens: &Vec<u32>) -> (r: Vec<usize>)
    ensures
        forall|k: int| 0 <= k < r@.len() ==> (#[trigger] r@[k]) < panels@.len(),
        forall|a: int, b: int| 0 <= a < b < r@.len() ==> r@[a] < r@[b],
        forall|p: int|
            0 <= p < panels@.len() ==> (r@.contains(p as usize) <==> !screens@.contains(
                #[trigger] panels@[p],
            )),
{
    let mut gone: Vec<usize> = Vec::new();
    let mut p: usize = 0;
    while p < panels.len()
        invariant
            p <= panels@.len(),
            forall|k: int| 0 <= k < gone@.len() ==> (#[trigger] gone@[k]) < p,
            forall|a: int, b: int| 0 <= a < b < gone@.len() ==> gone@[a] < gone@[b],
            forall|q: int|
                0 <= q < p ==> (gone@.contains(q as usize) <==> !screens@.contains(
                    #[trigger] panels@[q],
                )),
        decreases panels@.len() - p,
    {
        let ghost before = gone@;
        if !has_display(screens, panels[p]) {
            gone.push(p);
            assert(gone@[before.len() as int] == p);
        }
        assert forall|q: int| 0 <= q <= p implies (gone@.contains(q as usize) <==> !screens@.contains(
            #[trigger] panels@[q],
        )) by {
            if gone@.contains(q as usize) && q < p {
                let k = choose|k: int| 0 <= k < gone@.len() && gone@[k] == q as usize;
                if k < before.len() {
                    assert(before[k] == q as usize);
                }
            }
            if before.contains(q as usize) {
                let k = choose|k: int| 0 <= k < before.len() && before[k] == q as usize;
                assert(gone@[k] == q as usize);
            }
            if q == p && gone@.contains(q as usize) {
                let k = choose|k: int| 0 <= k < gone@.len() && gone@[k] == q as usize;
                if k < before.len() {
                    assert(before[k] < p);
                }
            }
        }
        p = p + 1;
    }
    gone
}

/// The displays among `screens`, in order, that have no panel and none being opened.
pub fn to_open(screens: &Vec<u32>, panels: &Vec<u32>, opening: &Vec<u32>) -> (r: Vec<u32>)
    ensures
        r@ == screens@.filter(|id: u32| !panels@.contains(id) && !opening@.contains(id)),
{
    let ghost wanted = |id: u32| !panels@.contains(id) && !opening@.contains(id);
    let mut open: Vec<u32> = Vec::new();
    let mut k: usize = 0;
    while k < screens.len()
        invariant
            k <= screens@.len(),
            wanted == (|id: u32| !panels@.contains(id) && !opening@.contains(id)),
            open@ == screens@.take(k as int).filter(wanted),
        decreases screens@.len() - k,
    {
        reveal_with_fuel(Seq::<_>::filter, 1);
        assert(screens@.take(k + 1).drop_last() =~= screens@.take(k as int));
        let id = screens[k];
        if !has_display(panels, id) && !has_display(opening, id) {
            open.push(id);
        }
        k = k + 1;
    }
    assert(screens@.take(screens@.len() as int) =~= screens@);
    open
}

/// How many looks in a row may miss the pointer before the panel slides in.
pub const AWAY_LOOKS: u32 = 2;

/// One look for the pointer while the panel is out: the count of looks in a row that
/// missed it, and whether the panel slides in now.
pub fn pointer_looked(away: u32, found: bool) -> (r: (u32, bool))
    requires
        away < u32::MAX,
    ensures
        r.0 == if found {
            0
        } else {
            away + 1
        },
        r.1 == (r.0 >= AWAY_LOOKS),
{
    let away: u32 = if found {
        0
    } else {
        away + 1
    };
    (away, away >= AWAY_LOOKS)
}

} // verus!
