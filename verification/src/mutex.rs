//! Mutexes: one that lets the caller spin, one that queues the caller.
//!
//! A mutex is a resource with a single unit in the ledger of its process.
//! Neither variant blocks or wakes anybody itself: `lock` answers what the
//! caller has to do, `unlock` answers which thread has to be woken.

use std::collections::VecDeque;
use vstd::prelude::*;
use crate::ledger::Ledger;
use crate::process::ProcessControlBlockInner;

verus! {

/// What came of an attempt to acquire.
#[derive(Copy, Clone, PartialEq, Eq, Structural, Debug)]
pub enum LockResult {
    /// The caller holds what it asked for.
    Acquired,
    /// The caller has to yield and try again.
    Retry,
    /// The caller is queued and has to block until it is woken; it then
    /// holds what it asked for.
    Blocked,
    /// Blocking would leave no order in which every thread can finish: the
    /// caller is not queued and must not block.
    WouldDeadlock,
}

/// The value a system call returns where blocking would deadlock.
pub const DEADLOCK: isize = -0xDEAD;

impl LockResult {
    /// The value a system call returns for this result.
    pub open spec fn spec_code(self) -> isize {
        if self is WouldDeadlock {
            DEADLOCK
        } else {
            0
        }
    }

    /// The value a system call returns for this result: `DEADLOCK` where
    /// blocking would deadlock, else zero.
    #[verifier::when_used_as_spec(spec_code)]
    pub fn code(self) -> (code: isize)
        ensures
            code == self.spec_code(),
    {
        match self {
            LockResult::WouldDeadlock => DEADLOCK,
            _ => 0,
        }
    }
}

/// What `lock` answers: a free mutex is acquired; at a held one a spinning
/// caller retries, and a queueing caller blocks unless that would `deadlock`.
pub open spec fn lock_outcome(locked: bool, blocking: bool, deadlock: bool) -> LockResult {
    if !locked {
        LockResult::Acquired
    } else if !blocking {
        LockResult::Retry
    } else if deadlock {
        LockResult::WouldDeadlock
    } else {
        LockResult::Blocked
    }
}

/// The ledger after `lock` by thread `t` on the mutex with resource id `r`.
pub open spec fn ledger_after_lock(l: Ledger, locked: bool, blocking: bool, t: int, r: int) -> Ledger {
    if !locked {
        l.request(t, r).grant(t, r)
    } else if !blocking {
        l
    } else {
        l.request(t, r)
    }
}

/// The thread that a release hands the resource to: the head of the queue.
pub open spec fn next_waiter(waiters: Seq<usize>) -> Option<usize> {
    if waiters.len() == 0 {
        None
    } else {
        Some(waiters[0])
    }
}

/// The queue after a release: the head has left.
pub open spec fn rest_of_queue(waiters: Seq<usize>) -> Seq<usize> {
    if waiters.len() == 0 {
        waiters
    } else {
        waiters.drop_first()
    }
}

/// Whether thread `t` can release resource `r` with these waiters: the head
/// of the queue, if there is one, has a row, and what it asked for is free
/// once `t` has given its unit back.
pub open spec fn can_hand_over(l: Ledger, waiters: Seq<usize>, t: int, r: int) -> bool {
    waiters.len() > 0 ==> l.has_thread(waiters[0] as int) && l.release_one(t, r).can_grant(
        waiters[0] as int,
        r,
    )
}

/// The ledger after thread `t` released resource `r` with these waiters:
/// `t` gives one unit back, and the head of the queue receives what it asked for.
pub open spec fn ledger_after_release(l: Ledger, waiters: Seq<usize>, t: int, r: int) -> Ledger {
    if waiters.len() == 0 {
        l.release_one(t, r)
    } else {
        l.release_one(t, r).grant(waiters[0] as int, r)
    }
}

/// A mutex of either variant.
pub trait Mutex {
    /// Whether the mutex is held.
    spec fn locked(&self) -> bool;

    /// The threads queued at the mutex, the one that came first at the head.
    spec fn waiters(&self) -> Seq<usize>;

    /// Whether a caller that finds the mutex held is queued (else it spins).
    spec fn blocking(&self) -> bool;

    /// Thread `tid` asks for the mutex. A free mutex is acquired: the thread
    /// asks for its unit and receives it. At a held mutex a spinning caller
    /// is told to retry and nothing changes; a queueing caller has its
    /// request recorded and is then queued behind the earlier waiters, or
    /// refused where deadlock detection finds that no order would let every
    /// thread finish.
    fn lock(&mut self, process: &mut ProcessControlBlockInner, tid: usize, mutex_id: usize) -> (res:
        LockResult)
        requires
            old(process).wf(),
            old(process).ledger().has_thread(tid as int),
            old(process).has_mutex(mutex_id),
            !old(self).locked() || old(self).blocking() ==> old(process).ledger().need[tid as int][old(
                process,
            ).mutex_res(mutex_id)] < usize::MAX,
            !old(self).locked() ==> old(process).ledger().request(
                tid as int,
                old(process).mutex_res(mutex_id),
            ).can_grant(tid as int, old(process).mutex_res(mutex_id)),
        ensures
            res == lock_outcome(
                old(self).locked(),
                old(self).blocking(),
                old(process).deadlock_detect && old(process).ledger().request(
                    tid as int,
                    old(process).mutex_res(mutex_id),
                ).deadlocked(),
            ),
            final(self).locked(),
            final(self).blocking() == old(self).blocking(),
            final(self).waiters() == (if res is Blocked {
                old(self).waiters().push(tid)
            } else {
                old(self).waiters()
            }),
            final(process).ledger() == ledger_after_lock(
                old(process).ledger(),
                old(self).locked(),
                old(self).blocking(),
                tid as int,
                old(process).mutex_res(mutex_id),
            ),
            final(process).wf(),
            final(process).same_process(old(process)),
            final(process).same_ids(old(process)),
    ;

    /// Thread `tid`, whose request for the mutex is on record already, goes
    /// on to acquire it: a free mutex is acquired, at a held one the caller
    /// retries or is queued.
    fn lock_requested(
        &mut self,
        process: &mut ProcessControlBlockInner,
        tid: usize,
        mutex_id: usize,
    ) -> (res: LockResult)
        requires
            old(process).wf(),
            old(process).ledger().has_thread(tid as int),
            old(process).has_mutex(mutex_id),
            !old(self).locked() ==> old(process).ledger().can_grant(
                tid as int,
                old(process).mutex_res(mutex_id),
            ),
        ensures
            res == lock_outcome(old(self).locked(), old(self).blocking(), false),
            final(self).locked(),
            final(self).blocking() == old(self).blocking(),
            final(self).waiters() == (if res is Blocked {
                old(self).waiters().push(tid)
            } else {
                old(self).waiters()
            }),
            final(process).ledger() == (if old(self).locked() {
                old(process).ledger()
            } else {
                old(process).ledger().grant(tid as int, old(process).mutex_res(mutex_id))
            }),
            final(process).wf(),
            final(process).same_process(old(process)),
            final(process).same_ids(old(process)),
    ;

    /// Thread `tid` releases the mutex and gives its unit back. Where
    /// threads are queued, the one at the head receives the unit and is
    /// returned to be woken, and the mutex stays held; else the mutex is free.
    fn unlock(&mut self, process: &mut ProcessControlBlockInner, tid: usize, mutex_id: usize) -> (woken:
        Option<usize>)
        requires
            old(process).wf(),
            old(process).ledger().has_thread(tid as int),
            old(process).has_mutex(mutex_id),
            old(self).blocking() ==> old(self).locked(),
            can_hand_over(
                old(process).ledger(),
                old(self).waiters(),
                tid as int,
                old(process).mutex_res(mutex_id),
            ),
        ensures
            woken == next_waiter(old(self).waiters()),
            final(self).locked() == (old(self).waiters().len() > 0),
            final(self).blocking() == old(self).blocking(),
            final(self).waiters() == rest_of_queue(old(self).waiters()),
            final(process).ledger() == ledger_after_release(
                old(process).ledger(),
                old(self).waiters(),
                tid as int,
                old(process).mutex_res(mutex_id),
            ),
            final(process).wf(),
            final(process).same_process(old(process)),
            final(process).same_ids(old(process)),
    ;
}

/// A mutex whose callers spin: they yield and try again until it is free.
pub struct MutexSpin {
    pub locked: bool,
}

impl MutexSpin {
    /// A free mutex.
    pub fn new() -> (mutex: MutexSpin)
        ensures
            !mutex.locked(),
            !mutex.blocking(),
            mutex.waiters() == Seq::<usize>::empty(),
    {
        MutexSpin { locked: false }
    }
}

impl Mutex for MutexSpin {
    open spec fn locked(&self) -> bool {
        self.locked
    }

    open spec fn waiters(&self) -> Seq<usize> {
        Seq::empty()
    }

    open spec fn blocking(&self) -> bool {
        false
    }

    fn lock(&mut self, process: &mut ProcessControlBlockInner, tid: usize, mutex_id: usize) -> (res:
        LockResult) {
        if self.locked {
            LockResult::Retry
        } else {
            let resource_id = process.get_mutex_res_id(mutex_id);
            process.need(tid, resource_id);
            process.alloc_task_resource(tid, resource_id);
            self.locked = true;
            LockResult::Acquired
        }
    }

    fn lock_requested(
        &mut self,
        process: &mut ProcessControlBlockInner,
        tid: usize,
        mutex_id: usize,
    ) -> (res: LockResult) {
        if self.locked {
            LockResult::Retry
        } else {
            let resource_id = process.get_mutex_res_id(mutex_id);
            process.alloc_task_resource(tid, resource_id);
            self.locked = true;
            LockResult::Acquired
        }
    }

    fn unlock(&mut self, process: &mut ProcessControlBlockInner, tid: usize, mutex_id: usize) -> (woken:
        Option<usize>) {
        let resource_id = process.get_mutex_res_id(mutex_id);
        process.dealloc_task_resource(tid, resource_id, false);
        self.locked = false;
        None
    }
}

/// The state of a blocking mutex.
pub struct MutexBlockingInner {
    /// Whether the mutex is held.
    pub locked: bool,
    /// The threads blocked at the mutex, by thread id, the earliest first.
    pub wait_queue: VecDeque<usize>,
}

/// A mutex whose callers block in a queue until the mutex is handed to them.
pub struct MutexBlocking {
    pub inner: MutexBlockingInner,
}

impl MutexBlocking {
    /// A free mutex with nobody waiting.
    pub fn new() -> (mutex: MutexBlocking)
        ensures
            !mutex.locked(),
            mutex.blocking(),
            mutex.waiters() == Seq::<usize>::empty(),
    {
        MutexBlocking { inner: MutexBlockingInner { locked: false, wait_queue: VecDeque::new() } }
    }
}

impl Mutex for MutexBlocking {
    open spec fn locked(&self) -> bool {
        self.inner.locked
    }

    open spec fn waiters(&self) -> Seq<usize> {
        self.inner.wait_queue@
    }

    open spec fn blocking(&self) -> bool {
        true
    }

    fn lock(&mut self, process: &mut ProcessControlBlockInner, tid: usize, mutex_id: usize) -> (res:
        LockResult) {
        let resource_id = process.get_mutex_res_id(mutex_id);
        process.need(tid, resource_id);
        if self.inner.locked {
            if process.deadlock_detected() {
                LockResult::WouldDeadlock
            } else {
                self.inner.wait_queue.push_back(tid);
                LockResult::Blocked
            }
        } else {
            process.alloc_task_resource(tid, resource_id);
            self.inner.locked = true;
            LockResult::Acquired
        }
    }

    fn lock_requested(
        &mut self,
        process: &mut ProcessControlBlockInner,
        tid: usize,
        mutex_id: usize,
    ) -> (res: LockResult) {
        if self.inner.locked {
            self.inner.wait_queue.push_back(tid);
            LockResult::Blocked
        } else {
            let resource_id = process.get_mutex_res_id(mutex_id);
            process.alloc_task_resource(tid, resource_id);
            self.inner.locked = true;
            LockResult::Acquired
        }
    }

    fn unlock(&mut self, process: &mut ProcessControlBlockInner, tid: usize, mutex_id: usize) -> (woken:
        Option<usize>) {
        let resource_id = process.get_mutex_res_id(mutex_id);
        process.dealloc_task_resource(tid, resource_id, false);
        match self.inner.wait_queue.pop_front() {
            Some(waking_task) => {
                process.alloc_task_resource(waking_task, resource_id);
                assert(self.waiters() =~= rest_of_queue(old(self).waiters()));
                Some(waking_task)
            },
            None => {
                self.inner.locked = false;
                assert(self.waiters() =~= rest_of_queue(old(self).waiters()));
                None
            },
        }
    }
}

/// A mutex of either variant, for callers that do not care which.
pub enum AnyMutex {
    Spin(MutexSpin),
    Blocking(MutexBlocking),
}

impl AnyMutex {
    /// A free mutex: one that queues its callers where `blocking`, else one
    /// that lets them spin.
    pub fn new(blocking: bool) -> (mutex: AnyMutex)
        ensures
            !mutex.locked(),
            mutex.blocking() == blocking,
            mutex.waiters() == Seq::<usize>::empty(),
    {
        if blocking {
            AnyMutex::Blocking(MutexBlocking::new())
        } else {
            AnyMutex::Spin(MutexSpin::new())
        }
    }

    /// Whether the mutex is held.
    pub fn is_locked(&self) -> (locked: bool)
        ensures
            locked == self.locked(),
    {
        match self {
            AnyMutex::Spin(m) => m.locked,
            AnyMutex::Blocking(m) => m.inner.locked,
        }
    }

    /// Whether the mutex queues its callers.
    pub fn is_blocking(&self) -> (blocking: bool)
        ensures
            blocking == self.blocking(),
    {
        match self {
            AnyMutex::Spin(_) => false,
            AnyMutex::Blocking(_) => true,
        }
    }

    /// The thread that the next release wakes.
    pub fn first_waiter(&self) -> (head: Option<usize>)
        ensures
            head == next_waiter(self.waiters()),
    {
        match self {
            AnyMutex::Spin(_) => None,
            AnyMutex::Blocking(m) => {
                if m.inner.wait_queue.len() > 0 {
                    Some(m.inner.wait_queue[0])
                } else {
                    None
                }
            },
        }
    }
}

impl Mutex for AnyMutex {
    open spec fn locked(&self) -> bool {
        match self {
            AnyMutex::Spin(m) => m.locked(),
            AnyMutex::Blocking(m) => m.locked(),
        }
    }

    open spec fn waiters(&self) -> Seq<usize> {
        match self {
            AnyMutex::Spin(m) => m.waiters(),
            AnyMutex::Blocking(m) => m.waiters(),
        }
    }

    open spec fn blocking(&self) -> bool {
        match self {
            AnyMutex::Spin(m) => m.blocking(),
            AnyMutex::Blocking(m) => m.blocking(),
        }
    }

    fn lock(&mut self, process: &mut ProcessControlBlockInner, tid: usize, mutex_id: usize) -> (res:
        LockResult) {
        match self {
            AnyMutex::Spin(m) => m.lock(process, tid, mutex_id),
            AnyMutex::Blocking(m) => m.lock(process, tid, mutex_id),
        }
    }

    fn lock_requested(
        &mut self,
        process: &mut ProcessControlBlockInner,
        tid: usize,
        mutex_id: usize,
    ) -> (res: LockResult) {
        match self {
            AnyMutex::Spin(m) => m.lock_requested(process, tid, mutex_id),
            AnyMutex::Blocking(m) => m.lock_requested(process, tid, mutex_id),
        }
    }

    fn unlock(&mut self, process: &mut ProcessControlBlockInner, tid: usize, mutex_id: usize) -> (woken:
        Option<usize>) {
        match self {
            AnyMutex::Spin(m) => m.unlock(process, tid, mutex_id),
            AnyMutex::Blocking(m) => m.unlock(process, tid, mutex_id),
        }
    }
}

} // verus!
