//! Removing expired particles (orb ripples, stars) from a list in one pass,
//! filling each hole with the last particle as `swap_remove` does.
use vstd::prelude::*;

verus! {

/// `idx` maps each position of `kept` to a position of `items`: every
/// unflagged item shows up exactly once, no flagged one does, and the items
/// in front of the first flagged one keep their places.
pub open spec fn culled_by<T>(
    items: Seq<T>,
    gone: Seq<bool>,
    kept: Seq<T>,
    idx: Seq<int>,
) -> bool {
    &&& idx.len() == kept.len()
    &&& forall|k: int|
        0 <= k < kept.len() ==> 0 <= #[trigger] idx[k] < items.len() && kept[k] == items[idx[k]]
            && !gone[idx[k]]
    &&& forall|k1: int, k2: int|
        0 <= k1 < kept.len() && 0 <= k2 < kept.len() && k1 != k2 ==> #[trigger] idx[k1]
            != #[trigger] idx[k2]
    &&& forall|j: int| 0 <= j < items.len() && !gone[j] ==> #[trigger] idx.contains(j)
    &&& forall|k: int|
        0 <= k < kept.len() && (forall|j: int| 0 <= j <= k ==> !#[trigger] gone[j]) ==> idx[k]
            == k
}

/// The list left by sweeping from position `i` on: a flagged item at the
/// sweep position is replaced by the last item (which carries its own flag
/// along) and the list shrinks by one; an unflagged one lets the sweep move
/// on.
pub open spec fn swap_cull<T>(items: Seq<T>, gone: Seq<bool>, i: int) -> Seq<T>
    decreases items.len() - i,
{
    if i < 0 || i >= items.len() {
        items
    } else if gone[i] {
        swap_cull(
            items.update(i, items.last()).drop_last(),
            gone.update(i, gone.last()).drop_last(),
            i,
        )
    } else {
        swap_cull(items, gone, i + 1)
    }
}

/// Removes from `items` every item whose flag in `gone` is set, moving the
/// last item into each hole: the result is the sweep `swap_cull` from the
/// front. What stays is exactly the unflagged items, each once; those in
/// front of the first flagged item keep their places.
pub fn cull<T>(items: &mut Vec<T>, gone: Vec<bool>)
    requires
        gone@.len() == old(items)@.len(),
    ensures
        final(items)@ == swap_cull(old(items)@, gone@, 0),
        exists|idx: Seq<int>| culled_by(old(items)@, gone@, final(items)@, idx),
{
    let ghost items0 = items@;
    let ghost gone0 = gone@;
    let mut flags = gone;
    let ghost mut idx: Seq<int> = Seq::new(items@.len(), |k: int| k);
    assert forall|j: int| 0 <= j < items0.len() && !gone0[j] implies #[trigger] idx.contains(j) by {
        assert(idx[j] == j);
    }
    let mut i: usize = 0;
    while i < items.len()
        invariant
            items@.len() == flags@.len(),
            i <= items@.len(),
            idx.len() == items@.len(),
            items0.len() == gone0.len(),
            forall|k: int|
                0 <= k < items@.len() ==> 0 <= #[trigger] idx[k] < items0.len() && items@[k]
                    == items0[idx[k]] && flags@[k] == gone0[idx[k]],
            forall|k1: int, k2: int|
                0 <= k1 < items@.len() && 0 <= k2 < items@.len() && k1 != k2 ==> #[trigger] idx[k1]
                    != #[trigger] idx[k2],
            forall|j: int| 0 <= j < items0.len() && !gone0[j] ==> #[trigger] idx.contains(j),
            forall|k: int| 0 <= k < i ==> !#[trigger] flags@[k],
            swap_cull(items@, flags@, i as int) == swap_cull(items0, gone0, 0),
            forall|k: int|
                0 <= k < items@.len() && (forall|j: int| 0 <= j <= k ==> !#[trigger] gone0[j])
                    ==> idx[k] == k,
        decreases items@.len() - i,
    {
        if flags[i] {
            let ghost pre_idx = idx;
            let ghost last = items@.len() - 1;
            items.swap_remove(i);
            flags.swap_remove(i);
            proof {
                idx = pre_idx.update(i as int, pre_idx[last]).drop_last();
                assert forall|j: int| 0 <= j < items0.len() && !gone0[j] implies #[trigger] idx.contains(
                    j,
                ) by {
                    assert(pre_idx.contains(j));
                    let k = choose|k: int| 0 <= k < pre_idx.len() && pre_idx[k] == j;
                    assert(k != i);
                    if k == last {
                        assert(idx[i as int] == j);
                    } else {
                        assert(idx[k] == j);
                    }
                }
                assert forall|k: int|
                    0 <= k < items@.len() && (forall|j: int| 0 <= j <= k ==> !#[trigger] gone0[j])
                        implies idx[k] == k by {
                    if k >= i {
                        assert(pre_idx[i as int] == i);
                        assert(!gone0[i as int]);
                    }
                }
            }
        } else {
            i = i + 1;
        }
    }
    proof {
        assert(culled_by(items0, gone0, items@, idx));
    }
}

} // verus!
