//! Every operation on a ledger keeps it well formed: the matrices keep their
//! shape, and for each resource the free units plus the units held by all
//! threads stay equal to the units the resource was created with.

use vstd::prelude::*;
use crate::ledger::{
    lemma_units_held_bounds_entry, lemma_units_held_bounds_pair, lemma_units_held_same_column,
    lemma_units_held_update, lemma_units_held_zero_column, units_held, zero_row, Ledger,
};

verus! {

/// The empty ledger is well formed.
pub proof fn lemma_empty_conserves()
    ensures
        Ledger::empty().wf(),
{
}

/// Registering a resource keeps the ledger well formed, leaves the other
/// resources as they were and starts the new one with all its units free.
pub proof fn lemma_register_conserves(l: Ledger, units: usize)
    requires
        l.wf(),
    ensures
        l.register(units).wf(),
        l.register(units).resources() == l.resources() + 1,
        l.register(units).threads() == l.threads(),
        l.register(units).held(l.resources()) == 0,
{
    let n = l.register(units);
    assert forall|r: int| 0 <= r < n.resources() implies n.available[r] + #[trigger] n.held(r)
        == n.total[r] by {
        if r < l.resources() {
            assert(l.available[r] + l.held(r) == l.total[r]);
            lemma_units_held_same_column(n.allocation, l.allocation, l.threads(), r);
        } else {
            lemma_units_held_zero_column(n.allocation, l.threads(), r);
        }
    }
    lemma_units_held_zero_column(n.allocation, l.threads(), l.resources());
}

/// What is held of `r` does not change when zero rows are appended.
proof fn lemma_units_held_zero_rows(a: Seq<Seq<usize>>, b: Seq<Seq<usize>>, n: int, r: int)
    requires
        a.len() <= n <= b.len(),
        forall|t: int| 0 <= t < a.len() ==> #[trigger] b[t] == a[t],
        forall|t: int| a.len() <= t < b.len() ==> (#[trigger] b[t])[r] == 0,
    ensures
        units_held(b, n, r) == units_held(a, a.len() as int, r),
    decreases n,
{
    if n > a.len() {
        lemma_units_held_zero_rows(a, b, n - 1, r);
        assert(b[n - 1][r] == 0);
    } else {
        lemma_units_held_same_column(a, b, n, r);
    }
}

/// Adding rows for new threads keeps the ledger well formed.
pub proof fn lemma_ensure_thread_row_conserves(l: Ledger, t: int)
    requires
        l.wf(),
        0 <= t,
    ensures
        l.ensure_thread_row(t).wf(),
        l.ensure_thread_row(t).has_thread(t),
{
    let n = l.ensure_thread_row(t);
    if t >= l.threads() {
        assert forall|r: int| 0 <= r < n.resources() implies n.available[r] + #[trigger] n.held(r)
            == n.total[r] by {
            assert(l.available[r] + l.held(r) == l.total[r]);
            lemma_units_held_zero_rows(l.allocation, n.allocation, n.threads(), r);
        }
    }
}

/// Recording a request keeps the ledger well formed.
pub proof fn lemma_request_conserves(l: Ledger, t: int, r: int)
    requires
        l.wf(),
        l.has_thread(t),
        l.has_resource(r),
    ensures
        l.request(t, r).wf(),
{
    let n = l.request(t, r);
    assert forall|q: int| 0 <= q < n.resources() implies n.available[q] + #[trigger] n.held(q)
        == n.total[q] by {
        assert(l.available[q] + l.held(q) == l.total[q]);
    }
}

/// Granting what was asked moves units from the free ones to the thread:
/// the ledger stays well formed.
pub proof fn lemma_grant_conserves(l: Ledger, t: int, r: int)
    requires
        l.wf(),
        l.has_thread(t),
        l.has_resource(r),
        l.can_grant(t, r),
    ensures
        l.grant(t, r).wf(),
        l.allocation[t][r] + l.need[t][r] <= l.total[r],
{
    let n = l.grant(t, r);
    assert(l.available[r] + l.held(r) == l.total[r]);
    lemma_units_held_bounds_entry(l.allocation, t, l.threads(), r);
    assert forall|q: int| 0 <= q < n.resources() implies n.available[q] + #[trigger] n.held(q)
        == n.total[q] by {
        assert(l.available[q] + l.held(q) == l.total[q]);
        lemma_units_held_update(l.allocation, t, n.allocation[t], l.threads(), q);
        assert(n.allocation =~= l.allocation.update(t, n.allocation[t]));
    }
}

/// Giving one unit back keeps the ledger well formed.
pub proof fn lemma_release_one_conserves(l: Ledger, t: int, r: int)
    requires
        l.wf(),
        l.has_thread(t),
        l.has_resource(r),
    ensures
        l.release_one(t, r).wf(),
        l.allocation[t][r] > 0 ==> l.available[r] < l.total[r],
{
    let n = l.release_one(t, r);
    assert(l.available[r] + l.held(r) == l.total[r]);
    lemma_units_held_bounds_entry(l.allocation, t, l.threads(), r);
    assert forall|q: int| 0 <= q < n.resources() implies n.available[q] + #[trigger] n.held(q)
        == n.total[q] by {
        assert(l.available[q] + l.held(q) == l.total[q]);
        if l.allocation[t][r] != 0 {
            lemma_units_held_update(l.allocation, t, n.allocation[t], l.threads(), q);
            assert(n.allocation =~= l.allocation.update(t, n.allocation[t]));
        }
    }
}

/// Giving everything back keeps the ledger well formed.
pub proof fn lemma_release_all_conserves(l: Ledger, t: int)
    requires
        l.wf(),
        l.has_thread(t),
    ensures
        l.release_all(t).wf(),
        forall|r: int|
            0 <= r < l.resources() ==> l.available[r] + (#[trigger] l.allocation[t][r])
                <= l.total[r],
{
    let n = l.release_all(t);
    assert forall|q: int| 0 <= q < l.resources() implies l.available[q]
        + (#[trigger] l.allocation[t][q]) <= l.total[q] by {
        assert(l.available[q] + l.held(q) == l.total[q]);
        lemma_units_held_bounds_entry(l.allocation, t, l.threads(), q);
    }
    assert forall|q: int| 0 <= q < n.resources() implies n.available[q] + #[trigger] n.held(q)
        == n.total[q] by {
        assert(l.available[q] + l.held(q) == l.total[q]);
        assert(l.available[q] + l.allocation[t][q] <= l.total[q]);
        lemma_units_held_update(l.allocation, t, zero_row(l.available.len()), l.threads(), q);
    }
}

/// Of a resource with a single unit, such as a mutex, two threads never
/// hold a unit at the same time.
pub proof fn lemma_mutual_exclusion(l: Ledger, r: int, t1: int, t2: int)
    requires
        l.wf(),
        l.has_resource(r),
        l.has_thread(t1),
        l.has_thread(t2),
        l.total[r] == 1,
        l.allocation[t1][r] > 0,
        l.allocation[t2][r] > 0,
    ensures
        t1 == t2,
{
    assert(l.available[r] + l.held(r) == l.total[r]);
    if t1 < t2 {
        lemma_units_held_bounds_pair(l.allocation, t1, t2, l.threads(), r);
    } else if t2 < t1 {
        lemma_units_held_bounds_pair(l.allocation, t2, t1, l.threads(), r);
    }
}

} // verus!
