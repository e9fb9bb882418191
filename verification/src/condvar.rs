//! A condition variable: a queue of threads that have released a mutex and
//! wait to be signalled.

use std::collections::VecDeque;
use vstd::prelude::*;
use crate::mutex::{
    can_hand_over, ledger_after_release, lock_outcome, next_waiter, rest_of_queue, LockResult,
    Mutex,
};
use crate::process::ProcessControlBlockInner;

verus! {

/// The state of a condition variable.
pub struct CondvarInner {
    /// The threads waiting to be signalled, by thread id, the earliest first.
    pub wait_queue: VecDeque<usize>,
}

/// A condition variable.
pub struct Condvar {
    pub inner: CondvarInner,
}

impl Condvar {
    /// The threads waiting to be signalled, the one that came first at the head.
    pub open spec fn waiters(&self) -> Seq<usize> {
        self.inner.wait_queue@
    }

    /// A condition variable with nobody waiting.
    pub fn new() -> (condvar: Condvar)
        ensures
            condvar.waiters() == Seq::<usize>::empty(),
    {
        Condvar { inner: CondvarInner { wait_queue: VecDeque::new() } }
    }

    /// Takes the thread that waited longest out of the queue and returns it
    /// to be woken; with nobody waiting, nothing happens.
    pub fn signal(&mut self) -> (woken: Option<usize>)
        ensures
            woken == next_waiter(old(self).waiters()),
            final(self).waiters() == rest_of_queue(old(self).waiters()),
    {
        let woken = self.inner.wait_queue.pop_front();
        assert(self.waiters() =~= rest_of_queue(old(self).waiters()));
        woken
    }

    /// Thread `tid` releases `mutex` and joins the queue; the caller then
    /// blocks it. Returns the thread that the release of the mutex wakes.
    pub fn wait<M: Mutex>(
        &mut self,
        mutex: &mut M,
        process: &mut ProcessControlBlockInner,
        tid: usize,
        mutex_id: usize,
    ) -> (woken: Option<usize>)
        requires
            old(process).wf(),
            old(process).ledger().has_thread(tid as int),
            old(process).has_mutex(mutex_id),
            old(mutex).blocking() ==> old(mutex).locked(),
            can_hand_over(
                old(process).ledger(),
                old(mutex).waiters(),
                tid as int,
                old(process).mutex_res(mutex_id),
            ),
        ensures
            final(self).waiters() == old(self).waiters().push(tid),
            woken == next_waiter(old(mutex).waiters()),
            final(mutex).locked() == (old(mutex).waiters().len() > 0),
            final(mutex).blocking() == old(mutex).blocking(),
            final(mutex).waiters() == rest_of_queue(old(mutex).waiters()),
            final(process).ledger() == ledger_after_release(
                old(process).ledger(),
                old(mutex).waiters(),
                tid as int,
                old(process).mutex_res(mutex_id),
            ),
            final(process).wf(),
            final(process).same_process(old(process)),
            final(process).same_ids(old(process)),
    {
        let woken = mutex.unlock(process, tid, mutex_id);
        self.inner.wait_queue.push_back(tid);
        woken
    }

    /// Thread `tid`, woken by a signal, asks for `mutex` again. The request
    /// is recorded; where deadlock detection then finds that no order would
    /// let every thread finish, the thread is refused and the mutex is left
    /// alone. Else the thread goes on to acquire the mutex.
    pub fn reacquire<M: Mutex>(
        &self,
        mutex: &mut M,
        process: &mut ProcessControlBlockInner,
        tid: usize,
        mutex_id: usize,
    ) -> (res: LockResult)
        requires
            old(process).wf(),
            old(process).ledger().has_thread(tid as int),
            old(process).has_mutex(mutex_id),
            old(process).ledger().need[tid as int][old(process).mutex_res(mutex_id)] < usize::MAX,
            !old(mutex).locked() ==> old(process).ledger().request(
                tid as int,
                old(process).mutex_res(mutex_id),
            ).can_grant(tid as int, old(process).mutex_res(mutex_id)),
        ensures
            ({
                let r = old(process).mutex_res(mutex_id);
                let asked = old(process).ledger().request(tid as int, r);
                if old(process).deadlock_detect && asked.deadlocked() {
                    &&& res is WouldDeadlock
                    &&& final(mutex).locked() == old(mutex).locked()
                    &&& final(mutex).waiters() == old(mutex).waiters()
                    &&& final(process).ledger() == asked
                } else {
                    &&& res == lock_outcome(old(mutex).locked(), old(mutex).blocking(), false)
                    &&& final(mutex).locked()
                    &&& final(mutex).waiters() == (if res is Blocked {
                        old(mutex).waiters().push(tid)
                    } else {
                        old(mutex).waiters()
                    })
                    &&& final(process).ledger() == (if old(mutex).locked() {
                        asked
                    } else {
                        asked.grant(tid as int, r)
                    })
                }
            }),
            final(mutex).blocking() == old(mutex).blocking(),
            final(process).wf(),
            final(process).same_process(old(process)),
            final(process).same_ids(old(process)),
    {
        let resource_id = process.get_mutex_res_id(mutex_id);
        process.need(tid, resource_id);
        if process.deadlock_detected() {
            return LockResult::WouldDeadlock;
        }
        mutex.lock_requested(process, tid, mutex_id)
    }
}

} // verus!
