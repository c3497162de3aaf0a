use vstd::prelude::*;

use crate::phases::{
    non_decreasing, opens_pair, ordered, out_of_order, phase, round_count, rounds, transposition_phases,
};
use crate::scalar::GPUSortAllowed;

verus! {

/// Two arrays, possibly of different element types, whose elements compare
/// alike position by position.
pub open spec fn same_order<A: GPUSortAllowed, B: GPUSortAllowed>(s: Seq<A>, t: Seq<B>) -> bool {
    &&& s.len() == t.len()
    &&& forall|i: int, j: int|
        #![trigger s[i].key(), s[j].key()]
        0 <= i < s.len() && 0 <= j < s.len() ==> (s[i].key() <= s[j].key()) == (t[i].key()
            <= t[j].key())
}

/// The position of `s` from which position `k` of `phase(s, parity, ascending)`
/// takes its element.
pub open spec fn phase_source<T: GPUSortAllowed>(s: Seq<T>, parity: int, ascending: bool, k: int) -> int {
    if opens_pair(k, parity) && k + 1 < s.len() && out_of_order(s[k], s[k + 1], ascending) {
        k + 1
    } else if k >= 1 && opens_pair(k - 1, parity) && out_of_order(s[k - 1], s[k], ascending) {
        k - 1
    } else {
        k
    }
}

/// A phase leaves an array that is ordered in its direction as it is: no
/// adjacent pair of such an array is out of order.
pub proof fn lemma_phase_keeps_ordered<T: GPUSortAllowed>(s: Seq<T>, parity: int, ascending: bool)
    requires
        ordered(s, ascending),
    ensures
        phase(s, parity, ascending) == s,
{
    assert forall|k: int| 0 <= k < s.len() implies #[trigger] phase(s, parity, ascending)[k] == s[k] by {
        if k + 1 < s.len() {
            assert(!out_of_order(s[k], s[k + 1], ascending));
        }
        if k >= 1 {
            assert(!out_of_order(s[k - 1], s[k], ascending));
        }
    }
    assert(phase(s, parity, ascending) =~= s);
}

/// Any number of rounds leaves an array that is already ordered in the target
/// direction unchanged: no pair that is already in order is ever swapped.
pub proof fn lemma_rounds_keep_ordered<T: GPUSortAllowed>(s: Seq<T>, r: nat, ascending: bool)
    requires
        ordered(s, ascending),
    ensures
        rounds(s, r, ascending) == s,
    decreases r,
{
    if r > 0 {
        lemma_rounds_keep_ordered(s, (r - 1) as nat, ascending);
        lemma_phase_keeps_ordered(s, 0, ascending);
        lemma_phase_keeps_ordered(s, 1, ascending);
    }
}

/// Sorting an array that is already in ascending order gives back the same
/// array.
pub proof fn lemma_sort_idempotent_on_sorted<T: GPUSortAllowed>(s: Seq<T>)
    requires
        non_decreasing(s),
    ensures
        transposition_phases(s, true) == s,
{
    lemma_rounds_keep_ordered(s, round_count(s.len() as int) as nat, true);
}

proof fn lemma_phase_source<A: GPUSortAllowed, B: GPUSortAllowed>(
    s: Seq<A>,
    t: Seq<B>,
    parity: int,
    ascending: bool,
)
    requires
        same_order(s, t),
    ensures
        forall|k: int|
            0 <= k < s.len() ==> 0 <= #[trigger] phase_source(s, parity, ascending, k) < s.len()
                && phase_source(s, parity, ascending, k) == phase_source(t, parity, ascending, k)
                && phase(s, parity, ascending)[k] == s[phase_source(s, parity, ascending, k)]
                && phase(t, parity, ascending)[k] == t[phase_source(s, parity, ascending, k)],
{
    assert forall|k: int| 0 <= k < s.len() implies 0 <= #[trigger] phase_source(s, parity, ascending, k) < s.len()
        && phase_source(s, parity, ascending, k) == phase_source(t, parity, ascending, k)
        && phase(s, parity, ascending)[k] == s[phase_source(s, parity, ascending, k)]
        && phase(t, parity, ascending)[k] == t[phase_source(s, parity, ascending, k)] by {
        if k + 1 < s.len() {
            assert((s[k].key() <= s[k + 1].key()) == (t[k].key() <= t[k + 1].key()));
            assert((s[k + 1].key() <= s[k].key()) == (t[k + 1].key() <= t[k].key()));
        }
        if k >= 1 {
            assert((s[k - 1].key() <= s[k].key()) == (t[k - 1].key() <= t[k].key()));
            assert((s[k].key() <= s[k - 1].key()) == (t[k].key() <= t[k - 1].key()));
        }
    }
}

/// A phase run on two arrays whose elements compare alike moves their
/// elements alike, so the results compare alike too.
pub proof fn lemma_phase_same_order<A: GPUSortAllowed, B: GPUSortAllowed>(
    s: Seq<A>,
    t: Seq<B>,
    parity: int,
    ascending: bool,
)
    requires
        same_order(s, t),
    ensures
        same_order(phase(s, parity, ascending), phase(t, parity, ascending)),
{
    lemma_phase_source(s, t, parity, ascending);
    let ps = phase(s, parity, ascending);
    let pt = phase(t, parity, ascending);
    assert forall|i: int, j: int|
        #![trigger ps[i].key(), ps[j].key()]
        0 <= i < ps.len() && 0 <= j < ps.len() implies (ps[i].key() <= ps[j].key()) == (pt[i].key()
            <= pt[j].key()) by {
        let si = phase_source(s, parity, ascending, i);
        let sj = phase_source(s, parity, ascending, j);
        assert((s[si].key() <= s[sj].key()) == (t[si].key() <= t[sj].key()));
    }
}

/// Sorting behaves alike across element types: two arrays, of any two
/// sortable scalar types, whose elements compare alike position by position
/// still compare alike after the same number of rounds in the same direction.
pub proof fn lemma_rounds_same_order<A: GPUSortAllowed, B: GPUSortAllowed>(
    s: Seq<A>,
    t: Seq<B>,
    r: nat,
    ascending: bool,
)
    requires
        same_order(s, t),
    ensures
        same_order(rounds(s, r, ascending), rounds(t, r, ascending)),
    decreases r,
{
    if r > 0 {
        let r1 = (r - 1) as nat;
        lemma_rounds_same_order(s, t, r1, ascending);
        lemma_phase_same_order(rounds(s, r1, ascending), rounds(t, r1, ascending), 0, ascending);
        lemma_phase_same_order(
            phase(rounds(s, r1, ascending), 0, ascending),
            phase(rounds(t, r1, ascending), 0, ascending),
            1,
            ascending,
        );
    }
}

/// The full sort, in either direction, keeps two arrays of any two sortable
/// scalar types that compare alike position by position comparing alike.
pub proof fn lemma_sort_same_order<A: GPUSortAllowed, B: GPUSortAllowed>(
    s: Seq<A>,
    t: Seq<B>,
    ascending: bool,
)
    requires
        same_order(s, t),
    ensures
        same_order(transposition_phases(s, ascending), transposition_phases(t, ascending)),
{
    lemma_rounds_same_order(s, t, round_count(s.len() as int) as nat, ascending);
}

/// A phase takes the elements of distinct positions from distinct positions.
proof fn lemma_phase_source_injective<T: GPUSortAllowed>(s: Seq<T>, parity: int, ascending: bool)
    requires
        parity == 0 || parity == 1,
    ensures
        forall|k1: int, k2: int|
            0 <= k1 < s.len() && 0 <= k2 < s.len() && k1 != k2 ==> #[trigger] phase_source(
                s,
                parity,
                ascending,
                k1,
            ) != #[trigger] phase_source(s, parity, ascending, k2),
{
}

/// The position of `s` from which position `k` of `rounds(s, r, ascending)`
/// takes its element.
pub open spec fn rounds_source<T: GPUSortAllowed>(s: Seq<T>, r: nat, ascending: bool, k: int) -> int
    decreases r,
{
    if r == 0 {
        k
    } else {
        let prev = rounds(s, (r - 1) as nat, ascending);
        let mid = phase_source(phase(prev, 0, ascending), 1, ascending, k);
        rounds_source(s, (r - 1) as nat, ascending, phase_source(prev, 0, ascending, mid))
    }
}

/// Rounds run on two arrays, of any two sortable scalar types, whose elements
/// compare alike position by position move both arrays' elements by one and
/// the same permutation of positions: position `k` of either result holds the
/// element that stood at position `rounds_source(s, r, ascending, k)`, and
/// distinct positions draw from distinct positions.
pub proof fn lemma_rounds_common_permutation<A: GPUSortAllowed, B: GPUSortAllowed>(
    s: Seq<A>,
    t: Seq<B>,
    r: nat,
    ascending: bool,
)
    requires
        same_order(s, t),
    ensures
        rounds(s, r, ascending).len() == s.len(),
        rounds(t, r, ascending).len() == s.len(),
        forall|k: int|
            0 <= k < s.len() ==> 0 <= #[trigger] rounds_source(s, r, ascending, k) < s.len()
                && rounds_source(s, r, ascending, k) == rounds_source(t, r, ascending, k)
                && rounds(s, r, ascending)[k] == s[rounds_source(s, r, ascending, k)]
                && rounds(t, r, ascending)[k] == t[rounds_source(s, r, ascending, k)],
        forall|k1: int, k2: int|
            0 <= k1 < s.len() && 0 <= k2 < s.len() && k1 != k2 ==> #[trigger] rounds_source(
                s,
                r,
                ascending,
                k1,
            ) != #[trigger] rounds_source(s, r, ascending, k2),
    decreases r,
{
    if r > 0 {
        let r1 = (r - 1) as nat;
        lemma_rounds_common_permutation(s, t, r1, ascending);
        lemma_rounds_same_order(s, t, r1, ascending);
        let ps = rounds(s, r1, ascending);
        let pt = rounds(t, r1, ascending);
        lemma_phase_source(ps, pt, 0, ascending);
        lemma_phase_same_order(ps, pt, 0, ascending);
        lemma_phase_source(phase(ps, 0, ascending), phase(pt, 0, ascending), 1, ascending);
        lemma_phase_source_injective(ps, 0, ascending);
        lemma_phase_source_injective(phase(ps, 0, ascending), 1, ascending);
        assert forall|k: int| 0 <= k < s.len() implies 0 <= #[trigger] rounds_source(s, r, ascending, k) < s.len()
            && rounds_source(s, r, ascending, k) == rounds_source(t, r, ascending, k)
            && rounds(s, r, ascending)[k] == s[rounds_source(s, r, ascending, k)]
            && rounds(t, r, ascending)[k] == t[rounds_source(s, r, ascending, k)] by {
            let mid = phase_source(phase(ps, 0, ascending), 1, ascending, k);
            let i = phase_source(ps, 0, ascending, mid);
            assert(phase_source(phase(pt, 0, ascending), 1, ascending, k) == mid);
            assert(phase_source(pt, 0, ascending, mid) == i);
            assert(rounds_source(s, r1, ascending, i) == rounds_source(t, r1, ascending, i));
        }
        assert forall|k1: int, k2: int|
            0 <= k1 < s.len() && 0 <= k2 < s.len() && k1 != k2 implies #[trigger] rounds_source(
                s,
                r,
                ascending,
                k1,
            ) != #[trigger] rounds_source(s, r, ascending, k2) by {
            let m1 = phase_source(phase(ps, 0, ascending), 1, ascending, k1);
            let m2 = phase_source(phase(ps, 0, ascending), 1, ascending, k2);
            let i1 = phase_source(ps, 0, ascending, m1);
            let i2 = phase_source(ps, 0, ascending, m2);
            assert(m1 != m2);
            assert(i1 != i2);
            assert(rounds_source(s, r1, ascending, i1) != rounds_source(s, r1, ascending, i2));
        }
    }
}

/// The full sort, in either direction, moves two arrays of any two sortable
/// scalar types that compare alike position by position by one and the same
/// permutation of positions.
pub proof fn lemma_sort_common_permutation<A: GPUSortAllowed, B: GPUSortAllowed>(
    s: Seq<A>,
    t: Seq<B>,
    ascending: bool,
)
    requires
        same_order(s, t),
    ensures
        transposition_phases(s, ascending).len() == s.len(),
        transposition_phases(t, ascending).len() == s.len(),
        forall|k: int|
            0 <= k < s.len() ==> 0 <= #[trigger] rounds_source(
                s,
                round_count(s.len() as int) as nat,
                ascending,
                k,
            ) < s.len() && transposition_phases(s, ascending)[k] == s[rounds_source(
                s,
                round_count(s.len() as int) as nat,
                ascending,
                k,
            )] && transposition_phases(t, ascending)[k] == t[rounds_source(
                s,
                round_count(s.len() as int) as nat,
                ascending,
                k,
            )],
        forall|k1: int, k2: int|
            0 <= k1 < s.len() && 0 <= k2 < s.len() && k1 != k2 ==> #[trigger] rounds_source(
                s,
                round_count(s.len() as int) as nat,
                ascending,
                k1,
            ) != #[trigger] rounds_source(s, round_count(s.len() as int) as nat, ascending, k2),
{
    lemma_rounds_common_permutation(s, t, round_count(s.len() as int) as nat, ascending);
}

/// Sorting `count` elements runs at least `count` phases, two per round.
pub proof fn lemma_enough_phases(count: nat)
    ensures
        2 * round_count(count as int) >= count,
{
}

} // verus!
