//! Why the safety check is right: the threads it finishes, in the order in
//! which it finishes them, are a feasible order; and where it stops with a
//! thread left over, no order lets every thread finish.

use vstd::prelude::*;
use crate::ledger::{lemma_units_held_by_monotone, Ledger};

verus! {

/// A feasible order stays feasible when a thread that can finish after it
/// is put at its end.
pub proof fn lemma_feasible_push(l: Ledger, done: Seq<int>, t: int)
    requires
        l.feasible(done),
        l.has_thread(t),
        !done.contains(t),
        l.can_finish(t, done),
    ensures
        l.feasible(done.push(t)),
{
    let longer = done.push(t);
    assert forall|i: int, j: int| 0 <= i < longer.len() && 0 <= j < longer.len() && i != j implies longer[i] != longer[j] by {
        if i < done.len() && j < done.len() {
        } else if i < done.len() {
            assert(done.contains(done[i]));
        } else {
            assert(done.contains(done[j]));
        }
    }
    assert forall|k: int| 0 <= k < longer.len() implies #[trigger] l.can_finish(
        longer[k],
        longer.take(k),
    ) by {
        if k < done.len() {
            assert(longer.take(k) =~= done.take(k));
            assert(l.can_finish(done[k], done.take(k)));
        } else {
            assert(longer.take(k) =~= done);
        }
    }
}

/// An order without repetition over the threads `0..n` has at most `n` entries.
pub proof fn lemma_distinct_threads_bounded(done: Seq<int>, n: int)
    requires
        0 <= n,
        done.no_duplicates(),
        forall|k: int| 0 <= k < done.len() ==> 0 <= #[trigger] done[k] < n,
    ensures
        done.len() <= n,
{
    done.unique_seq_to_set();
    vstd::set_lib::lemma_int_range(0, n);
    let all = vstd::set_lib::set_int_range(0, n);
    assert(done.to_set().subset_of(all)) by {
        assert forall|x: int| done.to_set().contains(x) implies all.contains(x) by {
            let i = choose|i: int| 0 <= i < done.len() && done[i] == x;
            assert(0 <= done[i] < n);
        }
    }
    vstd::set_lib::lemma_len_subset(done.to_set(), all);
}

/// The first place at or before `hi` where `order` names a thread outside `done`.
proof fn lemma_first_outside(order: Seq<int>, done: Seq<int>, hi: int) -> (k: int)
    requires
        0 <= hi < order.len(),
        !done.contains(order[hi]),
    ensures
        0 <= k <= hi,
        !done.contains(order[k]),
        forall|j: int| 0 <= j < k ==> done.contains(#[trigger] order[j]),
    decreases hi,
{
    if exists|j: int| 0 <= j < hi && !done.contains(#[trigger] order[j]) {
        let j = choose|j: int| 0 <= j < hi && !done.contains(#[trigger] order[j]);
        lemma_first_outside(order, done, j)
    } else {
        hi
    }
}

/// Where every thread has finished in a feasible order, that order is safe.
pub proof fn lemma_all_finished_is_safe(l: Ledger, done: Seq<int>)
    requires
        l.feasible(done),
        forall|t: int| l.has_thread(t) ==> done.contains(t),
    ensures
        !l.deadlocked(),
{
    assert(l.safe_order(done));
}

/// Where the threads in `done` have finished, one is left, and none of
/// those left can finish, no order lets every thread finish.
pub proof fn lemma_stuck_is_deadlocked(l: Ledger, done: Seq<int>, left: int)
    requires
        l.has_thread(left),
        !done.contains(left),
        forall|t: int| l.has_thread(t) && !done.contains(t) ==> !l.can_finish(t, done),
    ensures
        l.deadlocked(),
{
    assert forall|order: Seq<int>| !l.safe_order(order) by {
        if l.safe_order(order) {
            assert(order.contains(left));
            let hi = choose|i: int| 0 <= i < order.len() && order[i] == left;
            let k = lemma_first_outside(order, done, hi);
            let t = order[k];
            let before = order.take(k);
            assert(l.has_thread(t));
            assert(l.can_finish(t, before));
            assert forall|x: int| before.contains(x) implies done.contains(x) by {
                let i = choose|i: int| 0 <= i < before.len() && before[i] == x;
                assert(done.contains(order[i]));
            }
            assert forall|r: int| 0 <= r < l.resources() implies l.need[t][r]
                <= #[trigger] l.work_after(done, r) by {
                lemma_units_held_by_monotone(l.allocation, before, done, l.threads(), r);
                assert(l.need[t][r] <= l.work_after(before, r));
            }
            assert(l.can_finish(t, done));
        }
    }
}

} // verus!
