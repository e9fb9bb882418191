//! A counting semaphore: a resource with as many units as it has permits.

use std::collections::VecDeque;
use vstd::prelude::*;
use crate::ledger::Ledger;
use crate::mutex::{can_hand_over, ledger_after_release, next_waiter, rest_of_queue, LockResult};
use crate::process::ProcessControlBlockInner;

verus! {

/// The counter after one operation: an `up` adds one, a `down` takes one.
pub open spec fn count_step(count: int, up: bool) -> int {
    if up {
        count + 1
    } else {
        count - 1
    }
}

/// The counter after the operations `ops` in turn, `true` for an `up` and
/// `false` for a `down` that was not refused.
pub open spec fn count_after(initial: int, ops: Seq<bool>) -> int
    decreases ops.len(),
{
    if ops.len() == 0 {
        initial
    } else {
        count_step(count_after(initial, ops.drop_last()), ops.last())
    }
}

/// How many of `ops` are equal to `what`.
pub open spec fn occurrences(ops: Seq<bool>, what: bool) -> int
    decreases ops.len(),
{
    if ops.len() == 0 {
        0
    } else {
        occurrences(ops.drop_last(), what) + (if ops.last() == what {
            1int
        } else {
            0int
        })
    }
}

/// After any sequence of operations the counter is the initial number of
/// permits plus the number of `up`s minus the number of `down`s.
pub proof fn lemma_counter_law(initial: int, ops: Seq<bool>)
    ensures
        count_after(initial, ops) == initial + occurrences(ops, true) - occurrences(ops, false),
    decreases ops.len(),
{
    if ops.len() > 0 {
        lemma_counter_law(initial, ops.drop_last());
    }
}

/// What `down` answers: a permit is taken where one is left; else the
/// caller blocks unless that would `deadlock`.
pub open spec fn down_outcome(count: int, deadlock: bool) -> LockResult {
    if count > 0 {
        LockResult::Acquired
    } else if deadlock {
        LockResult::WouldDeadlock
    } else {
        LockResult::Blocked
    }
}

/// The ledger after `down` by thread `t` on the semaphore with resource id `r`.
pub open spec fn ledger_after_down(l: Ledger, count: int, t: int, r: int) -> Ledger {
    if count > 0 {
        l.request(t, r).grant(t, r)
    } else {
        l.request(t, r)
    }
}

/// The state of a semaphore.
pub struct SemaphoreInner {
    /// Permits left; where negative, the number of threads waiting, negated.
    pub count: isize,
    /// The threads blocked at the semaphore, by thread id, the earliest first.
    pub wait_queue: VecDeque<usize>,
}

/// A counting semaphore.
pub struct Semaphore {
    pub inner: SemaphoreInner,
}

impl Semaphore {
    /// Permits left; where negative, the number of waiting threads, negated.
    pub open spec fn count(&self) -> int {
        self.inner.count as int
    }

    /// The threads queued at the semaphore, the one that came first at the head.
    pub open spec fn waiters(&self) -> Seq<usize> {
        self.inner.wait_queue@
    }

    /// Threads wait exactly while the counter is negative, as many as it says.
    pub open spec fn wf(&self) -> bool {
        if self.count() < 0 {
            self.waiters().len() == -self.count()
        } else {
            self.waiters().len() == 0
        }
    }

    /// A semaphore with `res_count` permits and nobody waiting.
    pub fn new(res_count: usize) -> (sem: Semaphore)
        requires
            res_count <= isize::MAX,
        ensures
            sem.count() == res_count,
            sem.waiters() == Seq::<usize>::empty(),
            sem.wf(),
    {
        Semaphore { inner: SemaphoreInner { count: res_count as isize, wait_queue: VecDeque::new() } }
    }

    /// Thread `tid` gives a permit back: the counter goes up by one and the
    /// thread returns one unit, if it holds one. Where threads are queued,
    /// the one at the head receives what it asked for and is returned to be woken.
    pub fn up(&mut self, process: &mut ProcessControlBlockInner, tid: usize, sem_id: usize) -> (woken:
        Option<usize>)
        requires
            old(self).wf(),
            old(self).count() < isize::MAX,
            old(process).wf(),
            old(process).ledger().has_thread(tid as int),
            old(process).has_semaphore(sem_id),
            can_hand_over(
                old(process).ledger(),
                old(self).waiters(),
                tid as int,
                old(process).semaphore_res(sem_id),
            ),
        ensures
            final(self).count() == count_step(old(self).count(), true),
            woken == next_waiter(old(self).waiters()),
            final(self).waiters() == rest_of_queue(old(self).waiters()),
            final(self).wf(),
            final(process).ledger() == ledger_after_release(
                old(process).ledger(),
                old(self).waiters(),
                tid as int,
                old(process).semaphore_res(sem_id),
            ),
            final(process).wf(),
            final(process).same_process(old(process)),
            final(process).same_ids(old(process)),
    {
        self.inner.count += 1;
        let resource_id = process.get_semaphore_res_id(sem_id);
        process.dealloc_task_resource(tid, resource_id, false);
        if self.inner.count <= 0 {
            match self.inner.wait_queue.pop_front() {
                Some(task) => {
                    process.alloc_task_resource(task, resource_id);
                    assert(self.waiters() =~= rest_of_queue(old(self).waiters()));
                    Some(task)
                },
                None => None,
            }
        } else {
            None
        }
    }

    /// Thread `tid` asks for a permit; the request is recorded. Where a
    /// permit is left the thread receives it and the counter goes down by
    /// one. Else the thread is queued behind the earlier waiters and the
    /// counter goes down by one, unless deadlock detection finds that no
    /// order would let every thread finish: then the thread is refused and
    /// the semaphore stays as it was.
    pub fn down(&mut self, process: &mut ProcessControlBlockInner, tid: usize, sem_id: usize) -> (res:
        LockResult)
        requires
            old(self).wf(),
            old(self).count() > isize::MIN,
            old(process).wf(),
            old(process).ledger().has_thread(tid as int),
            old(process).has_semaphore(sem_id),
            old(process).ledger().need[tid as int][old(process).semaphore_res(sem_id)] < usize::MAX,
            old(self).count() > 0 ==> old(process).ledger().request(
                tid as int,
                old(process).semaphore_res(sem_id),
            ).can_grant(tid as int, old(process).semaphore_res(sem_id)),
        ensures
            res == down_outcome(
                old(self).count(),
                old(process).deadlock_detect && old(process).ledger().request(
                    tid as int,
                    old(process).semaphore_res(sem_id),
                ).deadlocked(),
            ),
            final(self).count() == (if res is WouldDeadlock {
                old(self).count()
            } else {
                count_step(old(self).count(), false)
            }),
            final(self).waiters() == (if res is Blocked {
                old(self).waiters().push(tid)
            } else {
                old(self).waiters()
            }),
            final(self).wf(),
            final(process).ledger() == ledger_after_down(
                old(process).ledger(),
                old(self).count(),
                tid as int,
                old(process).semaphore_res(sem_id),
            ),
            final(process).wf(),
            final(process).same_process(old(process)),
            final(process).same_ids(old(process)),
    {
        let resource_id = process.get_semaphore_res_id(sem_id);
        process.need(tid, resource_id);
        if self.inner.count > 0 {
            self.inner.count -= 1;
            process.alloc_task_resource(tid, resource_id);
            LockResult::Acquired
        } else if process.deadlock_detected() {
            LockResult::WouldDeadlock
        } else {
            self.inner.count -= 1;
            self.inner.wait_queue.push_back(tid);
            LockResult::Blocked
        }
    }
}

} // verus!
