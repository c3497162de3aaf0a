use vstd::prelude::*;

use crate::laws::lemma_rounds_keep_ordered;
use crate::memory::{DeviceMemory, Error, Stream};
use crate::phases::{
    check_sorted_inner, launch_phase, non_decreasing, phase, round_count, rounds,
    transposition_phases,
};
use crate::scalar::GPUSortAllowed;

verus! {

/// Enqueues the odd-even transposition sort of `mem` on `stream`: `count / 2`
/// rounds, one more when `count` is odd, each an even phase then an odd
/// phase, so at least `count` phases in all. Arrays of fewer than two
/// elements are left as they are.
pub fn sort<T: GPUSortAllowed>(mem: &mut DeviceMemory<T>, stream: &Stream, ascending: bool) -> (r:
    Result<(), Error>)
    ensures
        r is Ok,
        final(mem)@ == transposition_phases(old(mem)@, ascending),
        final(mem)@.to_multiset() == old(mem)@.to_multiset(),
        old(mem)@.len() < 2 ==> final(mem)@ == old(mem)@,
{
    let ghost s = mem@;
    proof {
        mem.lemma_view();
    }
    let count = mem.data.len();
    let total = count / 2 + count % 2;
    let mut i: usize = 0;
    while i < total
        invariant
            s == old(mem)@,
            total == round_count(s.len() as int),
            i <= total,
            mem@ == mem.data@,
            mem@ == rounds(s, i as nat, ascending),
            mem@.to_multiset() == s.to_multiset(),
        decreases total - i,
    {
        launch_phase(&mut mem.data, false, ascending);
        launch_phase(&mut mem.data, true, ascending);
        proof {
            mem.lemma_view();
        }
        i = i + 1;
    }
    proof {
        if s.len() < 2 {
            lemma_rounds_keep_ordered(s, total as nat, ascending);
        }
    }
    Ok(())
}

/// A vector of `n` entries, all `false`.
fn all_false(n: usize) -> (r: Vec<bool>)
    ensures
        r@ == Seq::new(n as nat, |i: int| false),
{
    let mut v: Vec<bool> = Vec::new();
    let mut j: usize = 0;
    while j < n
        invariant
            j <= n,
            v@ == Seq::new(j as nat, |i: int| false),
        decreases n - j,
    {
        v.push(false);
        j = j + 1;
        assert(v@ =~= Seq::new(j as nat, |i: int| false));
    }
    v
}

/// Whether every entry of `flags` is `true`.
pub fn all_true(flags: &Vec<bool>) -> (r: bool)
    ensures
        r == (forall|k: int| 0 <= k < flags@.len() ==> #[trigger] flags@[k]),
{
    let mut i: usize = 0;
    while i < flags.len()
        invariant
            i <= flags@.len(),
            forall|k: int| 0 <= k < i ==> #[trigger] flags@[k],
        decreases flags@.len() - i,
    {
        if !flags[i] {
            return false;
        }
        i = i + 1;
    }
    true
}

/// Whether `mem` is in non-decreasing order, checked pair by pair.
///
/// The check is the same whatever direction the array was sorted in: an array
/// sorted in descending order is reported as sorted only when it is also
/// non-decreasing (all its elements are equal). With a stream, the results
/// travel back on it; without one, they are copied back at once.
pub fn check_sorted<T: GPUSortAllowed>(mem: &DeviceMemory<T>, stream: Option<&Stream>) -> (r:
    Result<bool, Error>)
    ensures
        mem@.len() < 2 ==> r == Err::<bool, Error>(Error::TooFewElements),
        mem@.len() >= 2 ==> r == Ok::<bool, Error>(non_decreasing(mem@)),
{
    proof {
        mem.lemma_view();
    }
    let count = mem.count();
    if count < 2 {
        return Err(Error::TooFewElements);
    }
    let size = count - 1;
    let mut scratch = all_false(size);
    let mut id_x: usize = 0;
    while id_x < size
        invariant
            size + 1 == mem@.len(),
            mem@ == mem.data@,
            id_x <= size,
            scratch@.len() == size,
            forall|k: int|
                0 <= k < id_x ==> #[trigger] scratch@[k] == (mem@[k].key() <= mem@[k + 1].key()),
        decreases size - id_x,
    {
        check_sorted_inner(&mem.data, &mut scratch, size, id_x);
        id_x = id_x + 1;
    }
    let target = DeviceMemory::from_host(scratch);
    let mut host = all_false(size);
    let copied = target.copy_to_host(&mut host);
    match stream {
        Some(st) => st.synchronize(),
        None => {},
    }
    proof {
        target.lemma_view();
        assert(copied is Ok);
        assert(forall|k: int| 0 <= k < size ==> #[trigger] host@[k] == (mem@[k].key() <= mem@[k + 1].key()));
        assert(non_decreasing(mem@) == (forall|k: int| 0 <= k < host@.len() ==> #[trigger] host@[k])) by {
            if forall|k: int| 0 <= k < host@.len() ==> #[trigger] host@[k] {
                assert forall|k: int| 0 <= k < mem@.len() - 1 implies #[trigger] mem@[k].key() <= mem@[k + 1].key() by {
                    assert(host@[k]);
                }
            }
            if non_decreasing(mem@) {
                assert forall|k: int| 0 <= k < host@.len() implies #[trigger] host@[k] by {
                    assert(mem@[k].key() <= mem@[k + 1].key());
                }
            }
        }
    }
    Ok(all_true(&host))
}

} // verus!
