//! Mathematical model of the resource ledger: how many units of each
//! resource are free, held by each thread, and requested by each thread.

use vstd::prelude::*;

verus! {

/// Units of resource `r` held by the first `n` threads of `allocation`.
pub open spec fn units_held(allocation: Seq<Seq<usize>>, n: int, r: int) -> int
    decreases n,
{
    if n <= 0 {
        0
    } else {
        units_held(allocation, n - 1, r) + allocation[n - 1][r]
    }
}

/// Units of resource `r` held by those of the first `n` threads that occur
/// in `done`.
pub open spec fn units_held_by(allocation: Seq<Seq<usize>>, done: Seq<int>, n: int, r: int) -> int
    decreases n,
{
    if n <= 0 {
        0
    } else if done.contains(n - 1) {
        units_held_by(allocation, done, n - 1, r) + allocation[n - 1][r]
    } else {
        units_held_by(allocation, done, n - 1, r)
    }
}

/// A row of `len` zeros.
pub open spec fn zero_row(len: nat) -> Seq<usize> {
    Seq::new(len, |r: int| 0usize)
}

/// `m` with the entry of thread `t` and resource `r` replaced by `v`.
pub open spec fn set_entry(m: Seq<Seq<usize>>, t: int, r: int, v: usize) -> Seq<Seq<usize>> {
    m.update(t, m[t].update(r, v))
}

/// The ledger of one process.
pub struct Ledger {
    /// Free units of each resource.
    pub available: Seq<usize>,
    /// Units each resource was created with.
    pub total: Seq<usize>,
    /// `allocation[t][r]`: units of `r` held by thread `t`.
    pub allocation: Seq<Seq<usize>>,
    /// `need[t][r]`: units of `r` that thread `t` has asked for and not yet received.
    pub need: Seq<Seq<usize>>,
}

impl Ledger {
    /// Number of registered resources.
    pub open spec fn resources(self) -> int {
        self.available.len() as int
    }

    /// Number of thread rows.
    pub open spec fn threads(self) -> int {
        self.allocation.len() as int
    }

    /// Whether `t` is the id of a thread row.
    pub open spec fn has_thread(self, t: int) -> bool {
        0 <= t < self.threads()
    }

    /// Whether `r` is the id of a registered resource.
    pub open spec fn has_resource(self, r: int) -> bool {
        0 <= r < self.resources()
    }

    /// Both matrices have one row per thread and one column per resource.
    pub open spec fn shaped(self) -> bool {
        &&& self.total.len() == self.available.len()
        &&& self.need.len() == self.allocation.len()
        &&& forall|t: int|
            0 <= t < self.allocation.len() ==> (#[trigger] self.allocation[t]).len()
                == self.available.len()
        &&& forall|t: int|
            0 <= t < self.need.len() ==> (#[trigger] self.need[t]).len() == self.available.len()
    }

    /// Units of `r` held by all threads together.
    pub open spec fn held(self, r: int) -> int {
        units_held(self.allocation, self.threads(), r)
    }

    /// No unit is ever created or lost: what is free plus what is held is
    /// what the resource was created with.
    pub open spec fn conserved(self) -> bool {
        forall|r: int|
            0 <= r < self.resources() ==> self.available[r] + #[trigger] self.held(r)
                == self.total[r]
    }

    /// The ledger has its shape and conserves every resource.
    pub open spec fn wf(self) -> bool {
        self.shaped() && self.conserved()
    }

    /// The empty ledger: no resource, no thread.
    pub open spec fn empty() -> Ledger {
        Ledger {
            available: Seq::empty(),
            total: Seq::empty(),
            allocation: Seq::empty(),
            need: Seq::empty(),
        }
    }

    /// A new resource with `units` free units; its id is the old `resources()`.
    pub open spec fn register(self, units: usize) -> Ledger {
        Ledger {
            available: self.available.push(units),
            total: self.total.push(units),
            allocation: Seq::new(self.allocation.len(), |t: int| self.allocation[t].push(0usize)),
            need: Seq::new(self.need.len(), |t: int| self.need[t].push(0usize)),
        }
    }

    /// Rows up to and including `t` exist; new rows are zero.
    pub open spec fn ensure_thread_row(self, t: int) -> Ledger {
        if t < self.threads() {
            self
        } else {
            let fresh = Seq::new(
                (t + 1 - self.threads()) as nat,
                |i: int| zero_row(self.available.len()),
            );
            Ledger {
                available: self.available,
                total: self.total,
                allocation: self.allocation + fresh,
                need: self.need + fresh,
            }
        }
    }

    /// Thread `t` asks for one more unit of `r`.
    pub open spec fn request(self, t: int, r: int) -> Ledger {
        Ledger {
            available: self.available,
            total: self.total,
            allocation: self.allocation,
            need: set_entry(self.need, t, r, (self.need[t][r] + 1) as usize),
        }
    }

    /// Whether what `t` asks of `r` is free.
    pub open spec fn can_grant(self, t: int, r: int) -> bool {
        self.need[t][r] <= self.available[r]
    }

    /// Thread `t` receives all it asked of `r`.
    pub open spec fn grant(self, t: int, r: int) -> Ledger {
        Ledger {
            available: self.available.update(r, (self.available[r] - self.need[t][r]) as usize),
            total: self.total,
            allocation: set_entry(
                self.allocation,
                t,
                r,
                (self.allocation[t][r] + self.need[t][r]) as usize,
            ),
            need: set_entry(self.need, t, r, 0),
        }
    }

    /// Thread `t` gives back one unit of `r`, if it holds one, and withdraws
    /// what it asked of `r`.
    pub open spec fn release_one(self, t: int, r: int) -> Ledger {
        if self.allocation[t][r] == 0 {
            Ledger {
                available: self.available,
                total: self.total,
                allocation: self.allocation,
                need: set_entry(self.need, t, r, 0),
            }
        } else {
            Ledger {
                available: self.available.update(r, (self.available[r] + 1) as usize),
                total: self.total,
                allocation: set_entry(self.allocation, t, r, (self.allocation[t][r] - 1) as usize),
                need: set_entry(self.need, t, r, 0),
            }
        }
    }

    /// Thread `t` gives back all it holds and withdraws all it asked for.
    pub open spec fn release_all(self, t: int) -> Ledger {
        Ledger {
            available: Seq::new(
                self.available.len(),
                |r: int| (self.available[r] + self.allocation[t][r]) as usize,
            ),
            total: self.total,
            allocation: self.allocation.update(t, zero_row(self.available.len())),
            need: self.need.update(t, zero_row(self.available.len())),
        }
    }

    /// Units of `r` that are free once the threads in `done` have finished
    /// and given back what they hold.
    pub open spec fn work_after(self, done: Seq<int>, r: int) -> int {
        self.available[r] + units_held_by(self.allocation, done, self.threads(), r)
    }

    /// Thread `t` can run to its end once the threads in `done` have finished.
    pub open spec fn can_finish(self, t: int, done: Seq<int>) -> bool {
        forall|r: int|
            0 <= r < self.resources() ==> self.need[t][r] <= #[trigger] self.work_after(done, r)
    }

    /// Every thread of `order` can finish after those before it.
    pub open spec fn feasible(self, order: Seq<int>) -> bool {
        &&& order.no_duplicates()
        &&& forall|k: int| 0 <= k < order.len() ==> self.has_thread(#[trigger] order[k])
        &&& forall|k: int|
            0 <= k < order.len() ==> #[trigger] self.can_finish(order[k], order.take(k))
    }

    /// `order` names every thread once, and each can finish in its turn.
    pub open spec fn safe_order(self, order: Seq<int>) -> bool {
        &&& self.feasible(order)
        &&& forall|t: int| self.has_thread(t) ==> #[trigger] order.contains(t)
    }

    /// No order lets every thread finish.
    pub open spec fn deadlocked(self) -> bool {
        !exists|order: Seq<int>| self.safe_order(order)
    }
}


/// Two matrices that agree on column `r` hold the same number of units of `r`.
pub proof fn lemma_units_held_same_column(a: Seq<Seq<usize>>, b: Seq<Seq<usize>>, n: int, r: int)
    requires
        n <= a.len(),
        n <= b.len(),
        forall|t: int| 0 <= t < n ==> (#[trigger] a[t])[r] == b[t][r],
    ensures
        units_held(a, n, r) == units_held(b, n, r),
    decreases n,
{
    if n > 0 {
        lemma_units_held_same_column(a, b, n - 1, r);
        assert(a[n - 1][r] == b[n - 1][r]);
    }
}

/// A column of zeros holds nothing.
pub proof fn lemma_units_held_zero_column(a: Seq<Seq<usize>>, n: int, r: int)
    requires
        n <= a.len(),
        forall|t: int| 0 <= t < n ==> (#[trigger] a[t])[r] == 0,
    ensures
        units_held(a, n, r) == 0,
    decreases n,
{
    if n > 0 {
        lemma_units_held_zero_column(a, n - 1, r);
        assert(a[n - 1][r] == 0);
    }
}

/// Replacing the row of thread `t` changes what is held of `r` by the
/// difference of the two rows at `r`.
pub proof fn lemma_units_held_update(a: Seq<Seq<usize>>, t: int, row: Seq<usize>, n: int, r: int)
    requires
        0 <= t < a.len(),
        n <= a.len(),
    ensures
        units_held(a.update(t, row), n, r) == units_held(a, n, r) + (if t < n {
            row[r] - a[t][r]
        } else {
            0
        }),
    decreases n,
{
    if n > 0 {
        lemma_units_held_update(a, t, row, n - 1, r);
    }
}

/// A thread never holds more than all threads together.
pub proof fn lemma_units_held_bounds_entry(a: Seq<Seq<usize>>, t: int, n: int, r: int)
    requires
        0 <= t < n <= a.len(),
    ensures
        a[t][r] <= units_held(a, n, r),
        0 <= units_held(a, n - 1, r),
    decreases n,
{
    lemma_units_held_nonnegative(a, n - 1, r);
    if t < n - 1 {
        lemma_units_held_bounds_entry(a, t, n - 1, r);
    }
}

/// What is held is never negative.
pub proof fn lemma_units_held_nonnegative(a: Seq<Seq<usize>>, n: int, r: int)
    ensures
        0 <= units_held(a, n, r),
    decreases n,
{
    if n > 0 {
        lemma_units_held_nonnegative(a, n - 1, r);
    }
}

/// Two distinct threads together never hold more than all threads together.
pub proof fn lemma_units_held_bounds_pair(a: Seq<Seq<usize>>, t1: int, t2: int, n: int, r: int)
    requires
        0 <= t1 < t2 < n <= a.len(),
    ensures
        a[t1][r] + a[t2][r] <= units_held(a, n, r),
    decreases n,
{
    if t2 < n - 1 {
        lemma_units_held_bounds_pair(a, t1, t2, n - 1, r);
    } else {
        lemma_units_held_bounds_entry(a, t1, n - 1, r);
    }
}

/// The threads in `done` hold no more than all threads together.
pub proof fn lemma_units_held_by_bounded(a: Seq<Seq<usize>>, done: Seq<int>, n: int, r: int)
    ensures
        0 <= units_held_by(a, done, n, r) <= units_held(a, n, r),
    decreases n,
{
    if n > 0 {
        lemma_units_held_by_bounded(a, done, n - 1, r);
    }
}

/// More finished threads give back no less.
pub proof fn lemma_units_held_by_monotone(
    a: Seq<Seq<usize>>,
    fewer: Seq<int>,
    more: Seq<int>,
    n: int,
    r: int,
)
    requires
        forall|t: int| fewer.contains(t) ==> more.contains(t),
    ensures
        units_held_by(a, fewer, n, r) <= units_held_by(a, more, n, r),
    decreases n,
{
    if n > 0 {
        lemma_units_held_by_monotone(a, fewer, more, n - 1, r);
    }
}

/// One more finished thread gives back what it holds.
pub proof fn lemma_units_held_by_push(a: Seq<Seq<usize>>, done: Seq<int>, t: int, n: int, r: int)
    requires
        !done.contains(t),
    ensures
        units_held_by(a, done.push(t), n, r) == units_held_by(a, done, n, r) + (if 0 <= t < n {
            a[t][r] as int
        } else {
            0
        }),
    decreases n,
{
    if n > 0 {
        lemma_units_held_by_push(a, done, t, n - 1, r);
        lemma_push_contains(done, t, n - 1);
    }
}

/// What `done.push(t)` contains.
pub proof fn lemma_push_contains(done: Seq<int>, t: int, x: int)
    ensures
        done.push(t).contains(x) <==> (done.contains(x) || x == t),
{
    let longer = done.push(t);
    if done.contains(x) {
        let i = choose|i: int| 0 <= i < done.len() && done[i] == x;
        assert(longer[i] == x);
    }
    if x == t {
        assert(longer[done.len() as int] == x);
    }
    if longer.contains(x) {
        let i = choose|i: int| 0 <= i < longer.len() && longer[i] == x;
        if i < done.len() {
            assert(done[i] == x);
        }
    }
}

/// Nobody has finished: nothing was given back.
pub proof fn lemma_units_held_by_nobody(a: Seq<Seq<usize>>, n: int, r: int)
    ensures
        units_held_by(a, Seq::<int>::empty(), n, r) == 0,
    decreases n,
{
    if n > 0 {
        lemma_units_held_by_nobody(a, n - 1, r);
    }
}

} // verus!
