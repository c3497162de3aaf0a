use vstd::prelude::*;

use crate::scalar::GPUSortAllowed;

verus! {

/// Whether the pair `(a, b)`, in this order, must be swapped to follow the
/// requested direction. Equal elements are never out of order.
pub open spec fn out_of_order<T: GPUSortAllowed>(a: T, b: T, ascending: bool) -> bool {
    if ascending {
        a.key() > b.key()
    } else {
        a.key() < b.key()
    }
}

/// Whether index `k` is the first index of a pair in the phase whose pairs
/// start at `parity` (0 for the even phase, 1 for the odd phase).
pub open spec fn opens_pair(k: int, parity: int) -> bool {
    k >= parity && (k - parity) % 2 == 0
}

/// One compare-swap phase over the disjoint pairs `(parity + 2i, parity + 2i + 1)`
/// that fit in `s`, stated position by position.
pub open spec fn phase<T: GPUSortAllowed>(s: Seq<T>, parity: int, ascending: bool) -> Seq<T> {
    Seq::new(
        s.len(),
        |k: int|
            if opens_pair(k, parity) && k + 1 < s.len() && out_of_order(s[k], s[k + 1], ascending) {
                s[k + 1]
            } else if k >= 1 && opens_pair(k - 1, parity) && out_of_order(s[k - 1], s[k], ascending) {
                s[k - 1]
            } else {
                s[k]
            },
    )
}

/// `r` rounds of an even phase followed by an odd phase.
pub open spec fn rounds<T: GPUSortAllowed>(s: Seq<T>, r: nat, ascending: bool) -> Seq<T>
    decreases r,
{
    if r == 0 {
        s
    } else {
        phase(phase(rounds(s, (r - 1) as nat, ascending), 0, ascending), 1, ascending)
    }
}

/// Number of rounds that sorting runs on `count` elements: enough for at
/// least `count` phases.
pub open spec fn round_count(count: int) -> int {
    count / 2 + count % 2
}

/// The full phase sequence that sorting runs on `s`.
pub open spec fn transposition_phases<T: GPUSortAllowed>(s: Seq<T>, ascending: bool) -> Seq<T> {
    rounds(s, round_count(s.len() as int) as nat, ascending)
}

/// Every adjacent pair is non-decreasing.
pub open spec fn non_decreasing<T: GPUSortAllowed>(s: Seq<T>) -> bool {
    forall|i: int| 0 <= i < s.len() - 1 ==> #[trigger] s[i].key() <= s[i + 1].key()
}

/// Every adjacent pair is non-increasing.
pub open spec fn non_increasing<T: GPUSortAllowed>(s: Seq<T>) -> bool {
    forall|i: int| 0 <= i < s.len() - 1 ==> #[trigger] s[i].key() >= s[i + 1].key()
}

/// Ordered in the requested direction.
pub open spec fn ordered<T: GPUSortAllowed>(s: Seq<T>, ascending: bool) -> bool {
    if ascending {
        non_decreasing(s)
    } else {
        non_increasing(s)
    }
}

/// Compare-swap of the pair `(fst, fst + 1)`: the kernel task of one workgroup.
///
/// The task reads and writes only these two slots, so tasks of one phase,
/// whose pairs are disjoint, may run in any order or all at once.
fn compare_swap<T: GPUSortAllowed>(arr: &mut Vec<T>, fst: usize, ascending: bool)
    requires
        fst + 1 < old(arr).len(),
    ensures
        final(arr)@.len() == old(arr)@.len(),
        final(arr)@.to_multiset() == old(arr)@.to_multiset(),
        out_of_order(old(arr)@[fst as int], old(arr)@[fst + 1], ascending) ==> final(arr)@
            == old(arr)@.update(fst as int, old(arr)@[fst + 1]).update(
            fst + 1,
            old(arr)@[fst as int],
        ),
        !out_of_order(old(arr)@[fst as int], old(arr)@[fst + 1], ascending) ==> final(arr)@
            == old(arr)@,
{
    let sec = fst + 1;
    let a = arr[fst];
    let b = arr[sec];
    if (ascending && !a.at_most(&b)) || (!ascending && !b.at_most(&a)) {
        let ghost s = arr@;
        arr.set(fst, b);
        arr.set(sec, a);
        proof {
            broadcast use vstd::seq_lib::to_multiset_update;
            broadcast use vstd::multiset::group_multiset_axioms;

            broadcast use vstd::seq_lib::group_to_multiset_ensures;

            let m = s.to_multiset();
            assert(s.contains(a)) by {
                assert(s[fst as int] == a);
            }
            assert(m.count(a) > 0);
            assert(s.update(fst as int, b).to_multiset() == m.insert(b).remove(a));
            assert(arr@.to_multiset() == m.insert(b).remove(a).insert(a).remove(b));
            assert(m.insert(b).remove(a).insert(a).remove(b) =~= m);
        }
    }
}

/// Even-phase kernel task of workgroup `id_x`: the pair `(2 id_x, 2 id_x + 1)`.
pub fn sort_even_inner<T: GPUSortAllowed>(arr: &mut Vec<T>, id_x: usize, ascending: bool)
    requires
        2 * id_x + 1 < old(arr).len(),
    ensures
        final(arr)@.len() == old(arr)@.len(),
        final(arr)@.to_multiset() == old(arr)@.to_multiset(),
        forall|k: int|
            2 * id_x <= k <= 2 * id_x + 1 ==> #[trigger] final(arr)@[k] == phase(old(arr)@, 0, ascending)[k],
        forall|k: int|
            0 <= k < old(arr)@.len() && (k < 2 * id_x || k > 2 * id_x + 1) ==> #[trigger] final(arr)@[k]
                == old(arr)@[k],
{
    let fst = id_x * 2;
    compare_swap(arr, fst, ascending);
}

/// Odd-phase kernel task of workgroup `id_x`: the pair `(2 id_x + 1, 2 id_x + 2)`.
pub fn sort_odd_inner<T: GPUSortAllowed>(arr: &mut Vec<T>, id_x: usize, ascending: bool)
    requires
        2 * id_x + 2 < old(arr).len(),
    ensures
        final(arr)@.len() == old(arr)@.len(),
        final(arr)@.to_multiset() == old(arr)@.to_multiset(),
        forall|k: int|
            2 * id_x + 1 <= k <= 2 * id_x + 2 ==> #[trigger] final(arr)@[k] == phase(old(arr)@, 1, ascending)[k],
        forall|k: int|
            0 <= k < old(arr)@.len() && (k < 2 * id_x + 1 || k > 2 * id_x + 2) ==> #[trigger] final(arr)@[k]
                == old(arr)@[k],
{
    let fst = id_x * 2 + 1;
    compare_swap(arr, fst, ascending);
}

/// Number of workgroups of the phase that starts at `parity` on `count` elements.
pub open spec fn phase_groups(count: int, parity: int) -> int {
    if count > parity {
        (count - parity) / 2
    } else {
        0
    }
}

/// Launches the even phase (`odd == false`) or the odd phase (`odd == true`)
/// over all its workgroups, one after another. Since the pairs of a phase are
/// disjoint, this yields what a parallel launch yields.
pub fn launch_phase<T: GPUSortAllowed>(arr: &mut Vec<T>, odd: bool, ascending: bool)
    ensures
        final(arr)@ == phase(old(arr)@, if odd { 1int } else { 0int }, ascending),
        final(arr)@.to_multiset() == old(arr)@.to_multiset(),
{
    let ghost s = arr@;
    let ghost parity: int = if odd { 1int } else { 0int };
    let n = arr.len();
    let groups: usize = if odd {
        if n > 1 { (n - 1) / 2 } else { 0 }
    } else {
        n / 2
    };
    assert(groups == phase_groups(n as int, parity));
    let mut g: usize = 0;
    while g < groups
        invariant
            arr@.len() == n,
            n == s.len(),
            g <= groups,
            groups == phase_groups(n as int, parity),
            parity == if odd { 1int } else { 0int },
            arr@.to_multiset() == s.to_multiset(),
            forall|k: int| 0 <= k < parity + 2 * g && k < n ==> #[trigger] arr@[k] == phase(s, parity, ascending)[k],
            forall|k: int| parity + 2 * g <= k < n ==> #[trigger] arr@[k] == s[k],
        decreases groups - g,
    {
        let ghost before = arr@;
        if odd {
            sort_odd_inner(arr, g, ascending);
        } else {
            sort_even_inner(arr, g, ascending);
        }
        proof {
            let fst = parity + 2 * g;
            assert(before[fst] == s[fst]);
            assert(before[fst + 1] == s[fst + 1]);
            assert(phase(before, parity, ascending)[fst] == phase(s, parity, ascending)[fst]);
            assert(phase(before, parity, ascending)[fst + 1] == phase(s, parity, ascending)[fst + 1]);
            assert forall|k: int| 0 <= k < parity + 2 * (g + 1) && k < n implies #[trigger] arr@[k] == phase(s, parity, ascending)[k] by {
                if k >= fst {
                    assert(arr@[k] == phase(before, parity, ascending)[k]);
                } else {
                    assert(arr@[k] == before[k]);
                }
            }
            assert forall|k: int| parity + 2 * (g + 1) <= k < n implies #[trigger] arr@[k] == s[k] by {
                assert(arr@[k] == before[k]);
            }
        }
        g = g + 1;
    }
    proof {
        assert forall|k: int| 0 <= k < n implies #[trigger] arr@[k] == phase(s, parity, ascending)[k] by {
            if k >= parity + 2 * g {
                assert(arr@[k] == s[k]);
            }
        }
        assert(arr@ =~= phase(s, parity, ascending));
    }
}

/// Order-check kernel task of workgroup `id_x`: writes into slot `id_x` of
/// `target` whether the pair `(id_x, id_x + 1)` is non-decreasing. Tasks past
/// the `size` valid pairs do nothing.
pub fn check_sorted_inner<T: GPUSortAllowed>(arr: &Vec<T>, target: &mut Vec<bool>, size: usize, id_x: usize)
    requires
        size < arr@.len(),
        old(target)@.len() == size,
    ensures
        id_x >= size ==> final(target)@ == old(target)@,
        id_x < size ==> final(target)@ == old(target)@.update(
            id_x as int,
            arr@[id_x as int].key() <= arr@[id_x + 1].key(),
        ),
{
    if id_x >= size {
        return;
    }
    let fst = arr[id_x];
    let sec = arr[id_x + 1];
    if fst.at_most(&sec) {
        target.set(id_x, true);
    } else {
        target.set(id_x, false);
    }
}

} // verus!
