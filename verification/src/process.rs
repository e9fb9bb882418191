//! The process control block: the threads of a process, its descriptor
//! table and the resource ledger that its mutexes and semaphores are
//! booked in.

use std::collections::BTreeMap;
use vstd::prelude::*;
use crate::conservation::{
    lemma_ensure_thread_row_conserves, lemma_grant_conserves, lemma_register_conserves,
    lemma_mutual_exclusion, lemma_release_all_conserves, lemma_release_one_conserves,
    lemma_request_conserves,
};
use crate::ledger::{
    lemma_push_contains, lemma_units_held_by_bounded, lemma_units_held_by_nobody,
    lemma_units_held_by_push, zero_row, Ledger,
};
use crate::condvar::Condvar;
use crate::id::RecycleAllocator;
use crate::mutex::{AnyMutex, Mutex};
use crate::semaphore::Semaphore;
use crate::rows::{append_zero_column, copy_matrix, copy_row, grow_rows, matrix, set_cell};
use crate::safety::{
    lemma_all_finished_is_safe, lemma_distinct_threads_bounded, lemma_feasible_push,
    lemma_stuck_is_deadlocked,
};
use crate::task::TaskControlBlock;

verus! {

/// What a process owns besides its identity.
pub struct ProcessControlBlockInner {
    /// Whether the process has exited and waits to be reaped.
    pub is_zombie: bool,
    /// The exit code.
    pub exit_code: i32,
    /// The descriptor table: a slot is free or holds the handle of an open file.
    pub fd_table: Vec<Option<usize>>,
    /// The threads, by thread id.
    pub tasks: Vec<Option<TaskControlBlock>>,
    /// Hands out thread ids.
    pub task_res_allocator: RecycleAllocator,
    /// Whether a request that would close a cycle of waiting threads is refused.
    pub deadlock_detect: bool,
    /// Free units of each resource.
    pub available_list: Vec<usize>,
    /// Units each resource was created with.
    pub total_list: Vec<usize>,
    /// Units held, by thread and resource.
    pub allocation_matrix: Vec<Vec<usize>>,
    /// Units asked for and not yet received, by thread and resource.
    pub need_matrix: Vec<Vec<usize>>,
    /// The resource id of each mutex, by mutex id.
    pub mutex_id2res_id: BTreeMap<usize, usize>,
    /// The resource id of each semaphore, by semaphore id.
    pub semaphore_id2res_id: BTreeMap<usize, usize>,
}

/// Adds to each free count what the thread of row `t` holds, and clears its rows.
fn give_back_row(
    available: &mut Vec<usize>,
    allocation: &mut Vec<Vec<usize>>,
    need: &mut Vec<Vec<usize>>,
    t: usize,
)
    requires
        t < old(allocation)@.len(),
        old(need)@.len() == old(allocation)@.len(),
        old(allocation)@[t as int]@.len() == old(available)@.len(),
        old(need)@[t as int]@.len() == old(available)@.len(),
        forall|r: int|
            0 <= r < old(available)@.len() ==> old(available)@[r] + old(allocation)@[t as int]@[r]
                <= usize::MAX,
    ensures
        final(available)@ == Seq::new(
            old(available)@.len(),
            |r: int| (old(available)@[r] + old(allocation)@[t as int]@[r]) as usize,
        ),
        matrix(*final(allocation)) == matrix(*old(allocation)).update(
            t as int,
            zero_row(old(available)@.len()),
        ),
        matrix(*final(need)) == matrix(*old(need)).update(
            t as int,
            zero_row(old(available)@.len()),
        ),
{
    let columns = available.len();
    let mut i: usize = 0;
    while i < columns
        invariant
            i <= columns,
            columns == old(available)@.len(),
            available@.len() == columns,
            t < allocation@.len(),
            allocation@.len() == old(allocation)@.len(),
            need@.len() == old(allocation)@.len(),
            allocation@[t as int]@.len() == columns,
            need@[t as int]@.len() == columns,
            forall|k: int| 0 <= k < allocation@.len() && k != t ==> allocation@[k] == old(
                allocation,
            )@[k],
            forall|k: int| 0 <= k < need@.len() && k != t ==> need@[k] == old(need)@[k],
            forall|r: int|
                0 <= r < i ==> available@[r] == old(available)@[r] + old(allocation)@[t as int]@[r],
            forall|r: int| 0 <= r < i ==> allocation@[t as int]@[r] == 0,
            forall|r: int| 0 <= r < i ==> need@[t as int]@[r] == 0,
            forall|r: int| i <= r < columns ==> available@[r] == old(available)@[r],
            forall|r: int|
                i <= r < columns ==> allocation@[t as int]@[r] == old(allocation)@[t as int]@[r],
            forall|r: int|
                0 <= r < columns ==> old(available)@[r] + old(allocation)@[t as int]@[r]
                    <= usize::MAX,
        decreases columns - i,
    {
        available[i] = available[i] + allocation[t][i];
        allocation[t][i] = 0;
        need[t][i] = 0;
        i += 1;
    }
    proof {
        assert(available@ =~= Seq::new(
            old(available)@.len(),
            |r: int| (old(available)@[r] + old(allocation)@[t as int]@[r]) as usize,
        ));
        assert(allocation@[t as int]@ =~= zero_row(old(available)@.len()));
        assert(need@[t as int]@ =~= zero_row(old(available)@.len()));
        assert(matrix(*allocation) =~= matrix(*old(allocation)).update(
            t as int,
            zero_row(old(available)@.len()),
        ));
        assert(matrix(*need) =~= matrix(*old(need)).update(
            t as int,
            zero_row(old(available)@.len()),
        ));
    }
}

impl ProcessControlBlockInner {
    /// The ledger that the four ledger fields store.
    pub open spec fn ledger(&self) -> Ledger {
        Ledger {
            available: self.available_list@,
            total: self.total_list@,
            allocation: matrix(self.allocation_matrix),
            need: matrix(self.need_matrix),
        }
    }

    /// Whether mutex `mutex_id` has a resource id.
    pub open spec fn has_mutex(&self, mutex_id: usize) -> bool {
        self.mutex_id2res_id@.contains_key(mutex_id)
    }

    /// Whether semaphore `sem_id` has a resource id.
    pub open spec fn has_semaphore(&self, sem_id: usize) -> bool {
        self.semaphore_id2res_id@.contains_key(sem_id)
    }

    /// The resource id of mutex `mutex_id`.
    pub open spec fn mutex_res(&self, mutex_id: usize) -> int {
        self.mutex_id2res_id@[mutex_id] as int
    }

    /// The resource id of semaphore `sem_id`.
    pub open spec fn semaphore_res(&self, sem_id: usize) -> int {
        self.semaphore_id2res_id@[sem_id] as int
    }

    /// Every recorded resource id names a resource, and that of a mutex one
    /// with a single unit.
    pub open spec fn ids_wf(&self) -> bool {
        &&& forall|k: usize| #[trigger]
            self.has_mutex(k) ==> self.ledger().has_resource(self.mutex_res(k))
                && self.total_list@[self.mutex_res(k)] == 1
        &&& forall|k: usize| #[trigger]
            self.has_semaphore(k) ==> self.ledger().has_resource(self.semaphore_res(k))
    }

    /// The ledger is well formed and the resource ids are in range.
    pub open spec fn wf(&self) -> bool {
        self.ledger().wf() && self.ids_wf()
    }

    /// Everything but the ledger and the resource ids is as in `before`.
    pub open spec fn same_process(&self, before: &ProcessControlBlockInner) -> bool {
        &&& self.is_zombie == before.is_zombie
        &&& self.exit_code == before.exit_code
        &&& self.fd_table == before.fd_table
        &&& self.tasks == before.tasks
        &&& self.task_res_allocator == before.task_res_allocator
        &&& self.deadlock_detect == before.deadlock_detect
    }

    /// The resource ids are as in `before`.
    pub open spec fn same_ids(&self, before: &ProcessControlBlockInner) -> bool {
        &&& self.mutex_id2res_id@ == before.mutex_id2res_id@
        &&& self.semaphore_id2res_id@ == before.semaphore_id2res_id@
    }

    /// Resource ids stay in range while resources are only added.
    pub proof fn lemma_ids_kept(&self, before: &ProcessControlBlockInner)
        requires
            before.ids_wf(),
            self.same_ids(before),
            before.total_list@.len() == before.available_list@.len(),
            self.available_list@.len() >= before.available_list@.len(),
            self.total_list@.len() >= before.total_list@.len(),
            forall|r: int|
                0 <= r < before.total_list@.len() ==> self.total_list@[r] == before.total_list@[r],
        ensures
            self.ids_wf(),
    {
        assert forall|k: usize| #[trigger] self.has_mutex(k) implies self.ledger().has_resource(
            self.mutex_res(k),
        ) && self.total_list@[self.mutex_res(k)] == 1 by {
            assert(before.has_mutex(k));
        }
        assert forall|k: usize| #[trigger]
            self.has_semaphore(k) implies self.ledger().has_resource(self.semaphore_res(k)) by {
            assert(before.has_semaphore(k));
        }
    }

    /// No two threads hold the same mutex at the same time.
    pub proof fn lemma_one_owner(&self, mutex_id: usize, t1: int, t2: int)
        requires
            self.wf(),
            self.has_mutex(mutex_id),
            self.ledger().has_thread(t1),
            self.ledger().has_thread(t2),
            self.ledger().allocation[t1][self.mutex_res(mutex_id)] > 0,
            self.ledger().allocation[t2][self.mutex_res(mutex_id)] > 0,
        ensures
            t1 == t2,
    {
        lemma_mutual_exclusion(self.ledger(), self.mutex_res(mutex_id), t1, t2);
    }

    /// A process without threads, open files or resources.
    pub fn new() -> (inner: ProcessControlBlockInner)
        ensures
            inner.wf(),
            inner.ledger() == Ledger::empty(),
            inner.tasks@.len() == 0,
            inner.fd_table@.len() == 0,
            !inner.deadlock_detect,
            !inner.is_zombie,
            inner.exit_code == 0,
            inner.task_res_allocator.current == 0,
            inner.task_res_allocator.recycled@.len() == 0,
            inner.task_res_allocator.wf(),
            forall|k: usize| !inner.has_mutex(k) && !inner.has_semaphore(k),
    {
        let inner = ProcessControlBlockInner {
            is_zombie: false,
            exit_code: 0,
            fd_table: Vec::new(),
            tasks: Vec::new(),
            task_res_allocator: RecycleAllocator::new(),
            deadlock_detect: false,
            available_list: Vec::new(),
            total_list: Vec::new(),
            allocation_matrix: Vec::new(),
            need_matrix: Vec::new(),
            mutex_id2res_id: BTreeMap::new(),
            semaphore_id2res_id: BTreeMap::new(),
        };
        proof {
            assert(inner.ledger().allocation =~= Seq::empty());
            assert(inner.ledger().need =~= Seq::empty());
        }
        inner
    }

    /// The first free slot of the descriptor table; where none is free, a
    /// new slot at its end.
    pub fn alloc_fd(&mut self) -> (fd: usize)
        ensures
            fd < final(self).fd_table@.len(),
            final(self).fd_table@[fd as int] is None,
            forall|k: int| 0 <= k < fd ==> old(self).fd_table@[k] is Some,
            fd < old(self).fd_table@.len() ==> final(self).fd_table@ == old(self).fd_table@,
            fd >= old(self).fd_table@.len() ==> fd == old(self).fd_table@.len()
                && final(self).fd_table@ == old(self).fd_table@.push(None),
            final(self).ledger() == old(self).ledger(),
            final(self).same_ids(old(self)),
            old(self).wf() ==> final(self).wf(),
            final(self).tasks == old(self).tasks,
            final(self).task_res_allocator == old(self).task_res_allocator,
            final(self).deadlock_detect == old(self).deadlock_detect,
            final(self).is_zombie == old(self).is_zombie,
            final(self).exit_code == old(self).exit_code,
    {
        let mut fd: usize = 0;
        while fd < self.fd_table.len()
            invariant
                fd <= self.fd_table@.len(),
                *self == *old(self),
                forall|k: int| 0 <= k < fd ==> self.fd_table@[k] is Some,
            decreases self.fd_table@.len() - fd,
        {
            if self.fd_table[fd].is_none() {
                return fd;
            }
            fd += 1;
        }
        self.fd_table.push(None);
        proof {
            if old(self).wf() {
                self.lemma_ids_kept(old(self));
            }
        }
        fd
    }

    /// A thread id for a new thread.
    pub fn alloc_tid(&mut self) -> (tid: usize)
        requires
            old(self).task_res_allocator.recycled@.len() == 0 ==> old(
                self,
            ).task_res_allocator.current < usize::MAX,
        ensures
            old(self).task_res_allocator.recycled@.len() > 0 ==> {
                &&& tid == old(self).task_res_allocator.recycled@.last()
                &&& final(self).task_res_allocator.recycled@ == old(
                    self,
                ).task_res_allocator.recycled@.drop_last()
                &&& final(self).task_res_allocator.current == old(self).task_res_allocator.current
            },
            old(self).task_res_allocator.recycled@.len() == 0 ==> {
                &&& tid == old(self).task_res_allocator.current
                &&& final(self).task_res_allocator.recycled@ == old(
                    self,
                ).task_res_allocator.recycled@
                &&& final(self).task_res_allocator.current == old(self).task_res_allocator.current
                    + 1
            },
            old(self).task_res_allocator.wf() ==> final(self).task_res_allocator.wf() && tid
                < final(self).task_res_allocator.current,
            final(self).ledger() == old(self).ledger(),
            final(self).same_ids(old(self)),
            old(self).wf() ==> final(self).wf(),
            final(self).tasks == old(self).tasks,
            final(self).fd_table == old(self).fd_table,
            final(self).deadlock_detect == old(self).deadlock_detect,
            final(self).is_zombie == old(self).is_zombie,
            final(self).exit_code == old(self).exit_code,
    {
        let tid = self.task_res_allocator.alloc_id();
        proof {
            if old(self).wf() {
                self.lemma_ids_kept(old(self));
            }
        }
        tid
    }

    /// Takes back the thread id `tid`.
    pub fn dealloc_tid(&mut self, tid: usize)
        requires
            tid < old(self).task_res_allocator.current,
            !old(self).task_res_allocator.recycled@.contains(tid),
        ensures
            final(self).task_res_allocator.recycled@ == old(
                self,
            ).task_res_allocator.recycled@.push(tid),
            final(self).task_res_allocator.current == old(self).task_res_allocator.current,
            old(self).task_res_allocator.wf() ==> final(self).task_res_allocator.wf() && tid
                < final(self).task_res_allocator.current,
            final(self).ledger() == old(self).ledger(),
            final(self).same_ids(old(self)),
            old(self).wf() ==> final(self).wf(),
            final(self).tasks == old(self).tasks,
            final(self).fd_table == old(self).fd_table,
            final(self).deadlock_detect == old(self).deadlock_detect,
            final(self).is_zombie == old(self).is_zombie,
            final(self).exit_code == old(self).exit_code,
    {
        self.task_res_allocator.dealloc_id(tid);
        proof {
            if old(self).wf() {
                self.lemma_ids_kept(old(self));
            }
        }
    }

    /// The number of thread slots of this process.
    pub fn thread_count(&self) -> (n: usize)
        ensures
            n == self.tasks@.len(),
    {
        self.tasks.len()
    }

    /// The thread with id `tid`.
    pub fn get_task(&self, tid: usize) -> (task: &TaskControlBlock)
        requires
            tid < self.tasks@.len(),
            self.tasks@[tid as int] is Some,
        ensures
            *task == self.tasks@[tid as int]->0,
    {
        self.tasks[tid].as_ref().unwrap()
    }

    /// Records that thread `thread_id` asks for one more unit of resource `res_id`.
    pub fn need(&mut self, thread_id: usize, res_id: usize)
        requires
            old(self).wf(),
            old(self).ledger().has_thread(thread_id as int),
            old(self).ledger().has_resource(res_id as int),
            old(self).ledger().need[thread_id as int][res_id as int] < usize::MAX,
        ensures
            final(self).ledger() == old(self).ledger().request(thread_id as int, res_id as int),
            final(self).wf(),
            final(self).same_process(old(self)),
            final(self).same_ids(old(self)),
    {
        proof {
            lemma_request_conserves(self.ledger(), thread_id as int, res_id as int);
        }
        let asked = self.need_matrix[thread_id][res_id];
        set_cell(&mut self.need_matrix, thread_id, res_id, asked + 1);
        proof {
            self.lemma_ids_kept(old(self));
        }
    }

    /// Whether no order lets every thread run to its end, given what is
    /// free, held and asked for. Always `false` while deadlock detection is off.
    pub fn deadlock_detected(&self) -> (deadlock: bool)
        requires
            self.wf(),
        ensures
            deadlock == (self.deadlock_detect && self.ledger().deadlocked()),
    {
        if !self.deadlock_detect {
            return false;
        }
        let ghost l = self.ledger();
        let threads = self.allocation_matrix.len();
        let resources = self.available_list.len();
        let mut finish: Vec<bool> = Vec::new();
        let mut i: usize = 0;
        while i < threads
            invariant
                i <= threads,
                finish@.len() == i,
                forall|t: int| 0 <= t < i ==> !finish@[t],
            decreases threads - i,
        {
            finish.push(false);
            i += 1;
        }
        let mut work = copy_row(&self.available_list);
        let ghost mut done: Seq<int> = Seq::empty();
        proof {
            assert forall|r: int| 0 <= r < resources implies work@[r] == l.work_after(done, r) by {
                lemma_units_held_by_nobody(l.allocation, l.threads(), r);
            }
        }
        let mut finish_flag = true;
        while finish_flag
            invariant
                self.wf(),
                l == self.ledger(),
                threads == l.threads(),
                resources == l.resources(),
                finish@.len() == threads,
                work@.len() == resources,
                l.feasible(done),
                forall|t: int| 0 <= t < threads ==> finish@[t] == done.contains(t),
                forall|r: int| 0 <= r < resources ==> work@[r] == l.work_after(done, r),
                !finish_flag ==> forall|t: int|
                    l.has_thread(t) && !done.contains(t) ==> !#[trigger] l.can_finish(t, done),
            decreases threads - done.len(), (if finish_flag { 1int } else { 0int }),
        {
            finish_flag = false;
            let ghost before = done;
            proof {
                lemma_distinct_threads_bounded(done, threads as int);
            }
            let mut i: usize = 0;
            while i < threads
                invariant
                    self.wf(),
                    l == self.ledger(),
                    threads == l.threads(),
                    resources == l.resources(),
                    i <= threads,
                    finish@.len() == threads,
                    work@.len() == resources,
                    l.feasible(done),
                    done.len() <= threads,
                    forall|t: int| 0 <= t < threads ==> finish@[t] == done.contains(t),
                    forall|r: int| 0 <= r < resources ==> work@[r] == l.work_after(done, r),
                    finish_flag ==> done.len() > before.len(),
                    !finish_flag ==> done == before,
                    !finish_flag ==> forall|t: int|
                        0 <= t < i && !done.contains(t) ==> !#[trigger] l.can_finish(t, done),
                decreases threads - i,
            {
                if !finish[i] {
                    let mut flag = true;
                    let mut j: usize = 0;
                    while j < resources && flag
                        invariant
                            self.wf(),
                            l == self.ledger(),
                            threads == l.threads(),
                            resources == l.resources(),
                            i < threads,
                            j <= resources,
                            work@.len() == resources,
                            flag ==> forall|r: int| 0 <= r < j ==> l.need[i as int][r] <= work@[r],
                            !flag ==> j < resources && l.need[i as int][j as int] > work@[j as int],
                        decreases resources - j, (if flag { 1int } else { 0int }),
                    {
                        assert(l.need[i as int].len() == resources);
                        if self.need_matrix[i][j] > work[j] {
                            flag = false;
                        } else {
                            j += 1;
                        }
                    }
                    if flag {
                        assert(l.can_finish(i as int, done));
                        finish_flag = true;
                        finish[i] = true;
                        let ghost longer = done.push(i as int);
                        let mut j: usize = 0;
                        while j < resources
                            invariant
                                self.wf(),
                                l == self.ledger(),
                                threads == l.threads(),
                                resources == l.resources(),
                                i < threads,
                                j <= resources,
                                work@.len() == resources,
                                !done.contains(i as int),
                                longer == done.push(i as int),
                                forall|r: int| 0 <= r < j ==> work@[r] == l.work_after(longer, r),
                                forall|r: int|
                                    j <= r < resources ==> work@[r] == l.work_after(done, r),
                            decreases resources - j,
                        {
                            proof {
                                let r = j as int;
                                lemma_units_held_by_push(l.allocation, done, i as int, l.threads(), r);
                                lemma_units_held_by_bounded(l.allocation, longer, l.threads(), r);
                                assert(l.available[r] + l.held(r) == l.total[r]);
                                assert(l.allocation[i as int].len() == resources);
                                assert(work@[r] == l.work_after(done, r));
                            }
                            work[j] = work[j] + self.allocation_matrix[i][j];
                            j += 1;
                        }
                        proof {
                            lemma_feasible_push(l, done, i as int);
                            assert forall|t: int| 0 <= t < threads implies finish@[t]
                                == longer.contains(t) by {
                                lemma_push_contains(done, i as int, t);
                            }
                            done = longer;
                            lemma_distinct_threads_bounded(done, threads as int);
                        }
                    } else {
                        assert(!l.can_finish(i as int, done)) by {
                            assert(work@[j as int] == l.work_after(done, j as int));
                        }
                    }
                }
                i += 1;
            }
        }
        let mut i: usize = 0;
        while i < threads
            invariant
                self.deadlock_detect,
                l == self.ledger(),
                threads == l.threads(),
                i <= threads,
                finish@.len() == threads,
                l.feasible(done),
                forall|t: int| 0 <= t < threads ==> finish@[t] == done.contains(t),
                forall|t: int|
                    l.has_thread(t) && !done.contains(t) ==> !#[trigger] l.can_finish(t, done),
                forall|t: int| 0 <= t < i ==> finish@[t],
            decreases threads - i,
        {
            if !finish[i] {
                proof {
                    lemma_stuck_is_deadlocked(l, done, i as int);
                }
                return true;
            }
            i += 1;
        }
        proof {
            lemma_all_finished_is_safe(l, done);
        }
        false
    }

    /// Adds a resource with `units` free units and returns its id.
    fn add_resource(&mut self, units: usize) -> (res_id: usize)
        requires
            old(self).wf(),
        ensures
            res_id == old(self).ledger().resources(),
            final(self).ledger() == old(self).ledger().register(units),
            final(self).ledger().wf(),
            final(self).same_process(old(self)),
            final(self).mutex_id2res_id == old(self).mutex_id2res_id,
            final(self).semaphore_id2res_id == old(self).semaphore_id2res_id,
    {
        proof {
            lemma_register_conserves(self.ledger(), units);
        }
        let res_id = self.available_list.len();
        self.available_list.push(units);
        self.total_list.push(units);
        append_zero_column(&mut self.allocation_matrix);
        append_zero_column(&mut self.need_matrix);
        res_id
    }

    /// Registers mutex `mutex_id` as a new resource with one unit.
    pub fn alloc_mutex_res_id(&mut self, mutex_id: usize)
        requires
            old(self).wf(),
            !old(self).has_mutex(mutex_id),
        ensures
            final(self).ledger() == old(self).ledger().register(1),
            final(self).mutex_id2res_id@ == old(self).mutex_id2res_id@.insert(
                mutex_id,
                old(self).available_list@.len() as usize,
            ),
            final(self).semaphore_id2res_id@ == old(self).semaphore_id2res_id@,
            final(self).wf(),
            final(self).same_process(old(self)),
    {
        broadcast use vstd::std_specs::btree::group_btree_axioms;
        let res_id = self.add_resource(1);
        self.mutex_id2res_id.insert(mutex_id, res_id);
        proof {
            assert forall|k: usize| #[trigger] self.has_mutex(k) implies self.ledger().has_resource(
                self.mutex_res(k),
            ) && self.total_list@[self.mutex_res(k)] == 1 by {
                if k != mutex_id {
                    assert(old(self).has_mutex(k));
                }
            }
            assert forall|k: usize| #[trigger] self.has_semaphore(k) implies self.ledger().has_resource(
                self.semaphore_res(k),
            ) by {
                assert(old(self).has_semaphore(k));
            }
        }
    }

    /// The resource id of mutex `mutex_id`.
    pub fn get_mutex_res_id(&self, mutex_id: usize) -> (res_id: usize)
        requires
            self.has_mutex(mutex_id),
        ensures
            res_id == self.mutex_res(mutex_id),
    {
        broadcast use vstd::std_specs::btree::group_btree_axioms;
        *self.mutex_id2res_id.get(&mutex_id).unwrap()
    }

    /// Registers semaphore `semaphore_id` as a new resource with `res_count` units.
    pub fn alloc_semaphore_res_id(&mut self, semaphore_id: usize, res_count: usize)
        requires
            old(self).wf(),
            !old(self).has_semaphore(semaphore_id),
        ensures
            final(self).ledger() == old(self).ledger().register(res_count),
            final(self).semaphore_id2res_id@ == old(self).semaphore_id2res_id@.insert(
                semaphore_id,
                old(self).available_list@.len() as usize,
            ),
            final(self).mutex_id2res_id@ == old(self).mutex_id2res_id@,
            final(self).wf(),
            final(self).same_process(old(self)),
    {
        broadcast use vstd::std_specs::btree::group_btree_axioms;
        let res_id = self.add_resource(res_count);
        self.semaphore_id2res_id.insert(semaphore_id, res_id);
        proof {
            assert forall|k: usize| #[trigger] self.has_mutex(k) implies self.ledger().has_resource(
                self.mutex_res(k),
            ) && self.total_list@[self.mutex_res(k)] == 1 by {
                assert(old(self).has_mutex(k));
            }
            assert forall|k: usize| #[trigger] self.has_semaphore(k) implies self.ledger().has_resource(
                self.semaphore_res(k),
            ) by {
                if k != semaphore_id {
                    assert(old(self).has_semaphore(k));
                }
            }
        }
    }

    /// The resource id of semaphore `sem_id`.
    pub fn get_semaphore_res_id(&self, sem_id: usize) -> (res_id: usize)
        requires
            self.has_semaphore(sem_id),
        ensures
            res_id == self.semaphore_res(sem_id),
    {
        broadcast use vstd::std_specs::btree::group_btree_axioms;
        *self.semaphore_id2res_id.get(&sem_id).unwrap()
    }

    /// The resource id of mutex `mutex_id`, which is registered first where
    /// it is used for the first time.
    pub fn ensure_mutex_res_id(&mut self, mutex_id: usize) -> (res_id: usize)
        requires
            old(self).wf(),
        ensures
            old(self).has_mutex(mutex_id) ==> res_id == old(self).mutex_res(mutex_id)
                && final(self).ledger() == old(self).ledger() && final(self).same_ids(old(self)),
            !old(self).has_mutex(mutex_id) ==> res_id == old(self).ledger().resources()
                && final(self).ledger() == old(self).ledger().register(1)
                && final(self).mutex_id2res_id@ == old(self).mutex_id2res_id@.insert(
                mutex_id,
                res_id,
            ) && final(self).semaphore_id2res_id@ == old(self).semaphore_id2res_id@,
            final(self).has_mutex(mutex_id),
            final(self).mutex_res(mutex_id) == res_id,
            final(self).wf(),
            final(self).same_process(old(self)),
    {
        broadcast use vstd::std_specs::btree::group_btree_axioms;
        let known = match self.mutex_id2res_id.get(&mutex_id) {
            Some(res_id) => Some(*res_id),
            None => None,
        };
        match known {
            Some(res_id) => res_id,
            None => {
                self.alloc_mutex_res_id(mutex_id);
                self.available_list.len() - 1
            },
        }
    }

    /// The resource id of semaphore `semaphore_id`, which is registered
    /// first, with `res_count` units, where it is used for the first time.
    pub fn ensure_semaphore_res_id(&mut self, semaphore_id: usize, res_count: usize) -> (res_id:
        usize)
        requires
            old(self).wf(),
        ensures
            old(self).has_semaphore(semaphore_id) ==> res_id == old(self).semaphore_res(
                semaphore_id,
            ) && final(self).ledger() == old(self).ledger() && final(self).same_ids(old(self)),
            !old(self).has_semaphore(semaphore_id) ==> res_id == old(self).ledger().resources()
                && final(self).ledger() == old(self).ledger().register(res_count)
                && final(self).semaphore_id2res_id@ == old(self).semaphore_id2res_id@.insert(
                semaphore_id,
                res_id,
            ) && final(self).mutex_id2res_id@ == old(self).mutex_id2res_id@,
            final(self).has_semaphore(semaphore_id),
            final(self).semaphore_res(semaphore_id) == res_id,
            final(self).wf(),
            final(self).same_process(old(self)),
    {
        broadcast use vstd::std_specs::btree::group_btree_axioms;
        let known = match self.semaphore_id2res_id.get(&semaphore_id) {
            Some(res_id) => Some(*res_id),
            None => None,
        };
        match known {
            Some(res_id) => res_id,
            None => {
                self.alloc_semaphore_res_id(semaphore_id, res_count);
                self.available_list.len() - 1
            },
        }
    }

    /// Attaches a new thread, created at time `birth`, to the process: it
    /// gets a thread id, the slot of that id in the thread table, and a row
    /// in the ledger.
    pub fn create_thread(&mut self, birth: usize) -> (tid: usize)
        requires
            old(self).wf(),
            old(self).task_res_allocator.wf(),
            old(self).task_res_allocator.recycled@.len() == 0 ==> old(
                self,
            ).task_res_allocator.current < usize::MAX,
        ensures
            tid == (if old(self).task_res_allocator.recycled@.len() > 0 {
                old(self).task_res_allocator.recycled@.last()
            } else {
                old(self).task_res_allocator.current
            }),
            final(self).task_res_allocator.wf(),
            final(self).task_res_allocator.recycled@ == (if old(
                self,
            ).task_res_allocator.recycled@.len() > 0 {
                old(self).task_res_allocator.recycled@.drop_last()
            } else {
                old(self).task_res_allocator.recycled@
            }),
            final(self).task_res_allocator.current == (if old(
                self,
            ).task_res_allocator.recycled@.len() > 0 {
                old(self).task_res_allocator.current as int
            } else {
                old(self).task_res_allocator.current + 1
            }),
            final(self).tasks@.len() == (if tid < old(self).tasks@.len() {
                old(self).tasks@.len()
            } else {
                (tid + 1) as nat
            }),
            final(self).tasks@[tid as int] is Some,
            final(self).tasks@[tid as int]->0.is_new(birth),
            forall|k: int|
                0 <= k < old(self).tasks@.len() && k != tid ==> final(self).tasks@[k] == old(
                    self,
                ).tasks@[k],
            forall|k: int|
                old(self).tasks@.len() <= k < tid ==> final(self).tasks@[k] is None,
            final(self).ledger() == old(self).ledger().ensure_thread_row(tid as int),
            final(self).ledger().has_thread(tid as int),
            final(self).same_ids(old(self)),
            final(self).wf(),
            final(self).fd_table == old(self).fd_table,
            final(self).deadlock_detect == old(self).deadlock_detect,
            final(self).is_zombie == old(self).is_zombie,
            final(self).exit_code == old(self).exit_code,
    {
        let tid = self.alloc_tid();
        let ghost allocator = self.task_res_allocator;
        while self.tasks.len() <= tid
            invariant
                tid < usize::MAX,
                self.task_res_allocator == allocator,
                self.wf(),
                self.ledger() == old(self).ledger(),
                self.same_ids(old(self)),
                self.task_res_allocator.wf(),
                self.fd_table == old(self).fd_table,
                self.deadlock_detect == old(self).deadlock_detect,
                self.is_zombie == old(self).is_zombie,
                self.exit_code == old(self).exit_code,
                old(self).tasks@.len() <= self.tasks@.len(),
                self.tasks@.len() <= tid + 1 || self.tasks@.len() == old(self).tasks@.len(),
                forall|k: int| 0 <= k < old(self).tasks@.len() ==> self.tasks@[k] == old(
                    self,
                ).tasks@[k],
                forall|k: int| old(self).tasks@.len() <= k < self.tasks@.len() ==> self.tasks@[k] is None,
            decreases tid + 1 - self.tasks@.len(),
        {
            let ghost before = *self;
            self.tasks.push(None);
            proof {
                self.lemma_ids_kept(&before);
            }
        }
        let ghost before = *self;
        self.tasks[tid] = Some(TaskControlBlock::new(birth));
        proof {
            self.lemma_ids_kept(&before);
        }
        self.init_task_resource(tid);
        tid
    }

    /// Hands thread `thread_id` the units of `resource_id` that it asked for.
    pub fn alloc_task_resource(&mut self, thread_id: usize, resource_id: usize)
        requires
            old(self).wf(),
            old(self).ledger().has_thread(thread_id as int),
            old(self).ledger().has_resource(resource_id as int),
            old(self).ledger().can_grant(thread_id as int, resource_id as int),
        ensures
            final(self).ledger() == old(self).ledger().grant(thread_id as int, resource_id as int),
            final(self).wf(),
            final(self).same_process(old(self)),
            final(self).same_ids(old(self)),
    {
        proof {
            lemma_grant_conserves(self.ledger(), thread_id as int, resource_id as int);
        }
        let asked = self.need_matrix[thread_id][resource_id];
        let held = self.allocation_matrix[thread_id][resource_id];
        self.available_list[resource_id] = self.available_list[resource_id] - asked;
        set_cell(&mut self.allocation_matrix, thread_id, resource_id, held + asked);
        set_cell(&mut self.need_matrix, thread_id, resource_id, 0);
        proof {
            assert(self.ledger().available =~= old(self).ledger().grant(
                thread_id as int,
                resource_id as int,
            ).available);
            self.lemma_ids_kept(old(self));
        }
    }

    /// With `exit`, takes back all that thread `thread_id` holds and asked
    /// for; else takes back one unit of `resource_id`, if the thread holds
    /// one, and withdraws what it asked of that resource.
    pub fn dealloc_task_resource(&mut self, thread_id: usize, resource_id: usize, exit: bool)
        requires
            old(self).wf(),
            old(self).ledger().has_thread(thread_id as int),
            !exit ==> old(self).ledger().has_resource(resource_id as int),
        ensures
            exit ==> final(self).ledger() == old(self).ledger().release_all(thread_id as int),
            !exit ==> final(self).ledger() == old(self).ledger().release_one(
                thread_id as int,
                resource_id as int,
            ),
            final(self).wf(),
            final(self).same_process(old(self)),
            final(self).same_ids(old(self)),
    {
        if exit {
            proof {
                lemma_release_all_conserves(self.ledger(), thread_id as int);
                assert forall|r: int| 0 <= r < self.available_list@.len() implies self.available_list@[r]
                    + self.allocation_matrix@[thread_id as int]@[r] <= usize::MAX by {
                    assert(self.ledger().available[r] + self.ledger().allocation[thread_id as int][r]
                        <= self.ledger().total[r]);
                }
                assert(self.ledger().allocation[thread_id as int].len() == self.available_list@.len());
                assert(self.ledger().need[thread_id as int].len() == self.available_list@.len());
            }
            give_back_row(
                &mut self.available_list,
                &mut self.allocation_matrix,
                &mut self.need_matrix,
                thread_id,
            );
            proof {
                assert(self.ledger().available =~= old(self).ledger().release_all(
                    thread_id as int,
                ).available);
                self.lemma_ids_kept(old(self));
            }
        } else {
            proof {
                lemma_release_one_conserves(self.ledger(), thread_id as int, resource_id as int);
            }
            let held = self.allocation_matrix[thread_id][resource_id];
            if held != 0 {
                self.available_list[resource_id] = self.available_list[resource_id] + 1;
                set_cell(&mut self.allocation_matrix, thread_id, resource_id, held - 1);
            }
            set_cell(&mut self.need_matrix, thread_id, resource_id, 0);
            proof {
                assert(self.ledger().available =~= old(self).ledger().release_one(
                    thread_id as int,
                    resource_id as int,
                ).available);
                self.lemma_ids_kept(old(self));
            }
        }
    }

    /// Makes sure that the ledger has a row for thread `thread_id`.
    pub fn init_task_resource(&mut self, thread_id: usize)
        requires
            old(self).wf(),
            thread_id < usize::MAX,
        ensures
            final(self).ledger() == old(self).ledger().ensure_thread_row(thread_id as int),
            final(self).ledger().has_thread(thread_id as int),
            final(self).wf(),
            final(self).same_process(old(self)),
            final(self).same_ids(old(self)),
    {
        proof {
            lemma_ensure_thread_row_conserves(self.ledger(), thread_id as int);
        }
        let columns = self.available_list.len();
        grow_rows(&mut self.allocation_matrix, thread_id, columns);
        grow_rows(&mut self.need_matrix, thread_id, columns);
        proof {
            self.lemma_ids_kept(old(self));
        }
    }
}

/// A copy of a descriptor table.
fn copy_fd_table(table: &Vec<Option<usize>>) -> (copy: Vec<Option<usize>>)
    ensures
        copy@ == table@,
{
    let mut copy: Vec<Option<usize>> = Vec::new();
    let mut fd: usize = 0;
    while fd < table.len()
        invariant
            fd <= table@.len(),
            copy@.len() == fd,
            forall|k: int| 0 <= k < fd ==> copy@[k] == table@[k],
        decreases table@.len() - fd,
    {
        copy.push(table[fd]);
        fd += 1;
    }
    assert(copy@ =~= table@);
    copy
}

/// The handle of the standard input, open in descriptor 0 of a new process.
pub const STDIN: usize = 0;

/// The handle of the standard output, open in descriptor 1 of a new process.
pub const STDOUT: usize = 1;

/// The handle of the standard error stream, open in descriptor 2 of a new process.
pub const STDERR: usize = 2;

/// The size of a machine word in bytes.
pub const WORD: usize = 8;

/// Bytes that the first `n` arguments take on the stack, each with the
/// zero byte that ends it.
pub open spec fn args_bytes(args: Seq<Vec<u8>>, n: int) -> int
    decreases n,
{
    if n <= 0 {
        0
    } else {
        args_bytes(args, n - 1) + args[n - 1]@.len() + 1
    }
}

/// Where the arguments of a new program lie on its user stack.
pub struct ExecStack {
    /// The address of the argument vector.
    pub argv_base: usize,
    /// The argument vector: the address of each argument, then zero.
    pub argv: Vec<usize>,
    /// The stack pointer that the program starts with.
    pub user_sp: usize,
}

/// The first free slot of `list`, or its length where no slot is free.
fn free_slot<T>(list: &Vec<Option<T>>) -> (slot: usize)
    ensures
        is_free_slot(list@, slot),
{
    let mut slot: usize = 0;
    while slot < list.len()
        invariant
            slot <= list@.len(),
            forall|k: int| 0 <= k < slot ==> list@[k] is Some,
        decreases list@.len() - slot,
    {
        if list[slot].is_none() {
            return slot;
        }
        slot += 1;
    }
    slot
}

/// Whether `slot` is where the next item of `list` goes: the first free
/// slot, or the end of the list where no slot is free.
pub open spec fn is_free_slot<T>(list: Seq<Option<T>>, slot: usize) -> bool {
    &&& slot <= list.len()
    &&& forall|k: int| 0 <= k < slot ==> list[k] is Some
    &&& slot < list.len() ==> list[slot as int] is None
}

/// Whether `after` is `before` with an item put in `slot`, a free slot or
/// the end of the list; the other slots are as they were.
pub open spec fn slot_filled<T>(before: Seq<Option<T>>, after: Seq<Option<T>>, slot: usize) -> bool {
    &&& is_free_slot(before, slot)
    &&& after.len() == (if slot < before.len() {
        before.len()
    } else {
        before.len() + 1
    })
    &&& after[slot as int] is Some
    &&& forall|k: int| 0 <= k < before.len() && k != slot ==> after[k] == before[k]
}

/// A process: its id and what it owns.
pub struct ProcessControlBlock {
    /// The process id; it never changes.
    pub pid: usize,
    /// The threads, the descriptors and the ledger.
    pub inner: ProcessControlBlockInner,
    /// The mutexes, by mutex id; a slot that was freed is used again.
    pub mutex_list: Vec<Option<AnyMutex>>,
    /// The semaphores, by semaphore id.
    pub semaphore_list: Vec<Option<Semaphore>>,
    /// The condition variables, by their id.
    pub condvar_list: Vec<Option<Condvar>>,
}

impl ProcessControlBlock {
    /// What the process owns, to read and to change.
    pub fn inner_exclusive_access(&mut self) -> (inner: &mut ProcessControlBlockInner)
        ensures
            *inner == old(self).inner,
            final(self).inner == *final(inner),
            final(self).pid == old(self).pid,
            final(self).mutex_list == old(self).mutex_list,
            final(self).semaphore_list == old(self).semaphore_list,
            final(self).condvar_list == old(self).condvar_list,
    {
        &mut self.inner
    }

    /// A new process with id `pid` and one thread, with thread id 0,
    /// created at time `birth`. Its ledger has a row for that thread and no
    /// resource; its first three descriptors are the standard streams.
    pub fn new(pid: usize, birth: usize) -> (process: ProcessControlBlock)
        ensures
            process.pid == pid,
            process.mutex_list@.len() == 0,
            process.semaphore_list@.len() == 0,
            process.condvar_list@.len() == 0,
            process.inner.wf(),
            process.inner.ledger() == Ledger::empty().ensure_thread_row(0),
            process.inner.tasks@.len() == 1,
            process.inner.tasks@[0] is Some,
            process.inner.tasks@[0]->0.is_new(birth),
            process.inner.fd_table@ == seq![Some(STDIN), Some(STDOUT), Some(STDERR)],
            !process.inner.deadlock_detect,
            !process.inner.is_zombie,
            process.inner.exit_code == 0,
            process.inner.task_res_allocator.current == 1,
            process.inner.task_res_allocator.recycled@.len() == 0,
            process.inner.task_res_allocator.wf(),
            forall|k: usize| !process.inner.has_mutex(k) && !process.inner.has_semaphore(k),
    {
        let mut inner = ProcessControlBlockInner::new();
        let ghost fresh = inner;
        inner.fd_table.push(Some(STDIN));
        inner.fd_table.push(Some(STDOUT));
        inner.fd_table.push(Some(STDERR));
        proof {
            assert(inner.fd_table@ =~= seq![Some(STDIN), Some(STDOUT), Some(STDERR)]);
            inner.lemma_ids_kept(&fresh);
        }
        inner.create_thread(birth);
        ProcessControlBlock {
            pid,
            inner,
            mutex_list: Vec::new(),
            semaphore_list: Vec::new(),
            condvar_list: Vec::new(),
        }
    }

    /// A child of this process with id `pid`: it has one thread of its own,
    /// created at time `birth`, no mutex, semaphore or condition variable,
    /// and copies of the parent's descriptor table, ledger and resource ids. Nothing is shared: what is changed in one of
    /// the two afterwards leaves the other as it was. Deadlock detection is
    /// off in the child.
    pub fn fork(&self, pid: usize, birth: usize) -> (child: ProcessControlBlock)
        requires
            self.inner.wf(),
            self.inner.tasks@.len() == 1,
        ensures
            child.pid == pid,
            child.mutex_list@.len() == 0,
            child.semaphore_list@.len() == 0,
            child.condvar_list@.len() == 0,
            child.inner.wf(),
            child.inner.ledger() == self.inner.ledger().ensure_thread_row(0),
            child.inner.same_ids(&self.inner),
            child.inner.fd_table@ == self.inner.fd_table@,
            child.inner.tasks@.len() == 1,
            child.inner.tasks@[0] is Some,
            child.inner.tasks@[0]->0.is_new(birth),
            !child.inner.deadlock_detect,
            !child.inner.is_zombie,
            child.inner.exit_code == 0,
            child.inner.task_res_allocator.current == 1,
            child.inner.task_res_allocator.recycled@.len() == 0,
            child.inner.task_res_allocator.wf(),
    {
        let parent = &self.inner;
        let mut inner = ProcessControlBlockInner {
            is_zombie: false,
            exit_code: 0,
            fd_table: copy_fd_table(&parent.fd_table),
            tasks: Vec::new(),
            task_res_allocator: RecycleAllocator::new(),
            deadlock_detect: false,
            available_list: copy_row(&parent.available_list),
            total_list: copy_row(&parent.total_list),
            allocation_matrix: copy_matrix(&parent.allocation_matrix),
            need_matrix: copy_matrix(&parent.need_matrix),
            mutex_id2res_id: parent.mutex_id2res_id.clone(),
            semaphore_id2res_id: parent.semaphore_id2res_id.clone(),
        };
        proof {
            assert(inner.ledger() == parent.ledger());
            inner.lemma_ids_kept(parent);
        }
        inner.create_thread(birth);
        ProcessControlBlock {
            pid,
            inner,
            mutex_list: Vec::new(),
            semaphore_list: Vec::new(),
            condvar_list: Vec::new(),
        }
    }

    /// Creates a mutex, one that queues its callers where `blocking`, else
    /// one that lets them spin, and puts it in the first free slot. The
    /// slot's index is the mutex id; where that id is used for the first
    /// time, the mutex is registered as a resource with one unit.
    pub fn mutex_create(&mut self, blocking: bool) -> (id: usize)
        requires
            old(self).inner.wf(),
        ensures
            slot_filled(old(self).mutex_list@, final(self).mutex_list@, id),
            !final(self).mutex_list@[id as int]->0.locked(),
            final(self).mutex_list@[id as int]->0.blocking() == blocking,
            final(self).mutex_list@[id as int]->0.waiters() == Seq::<usize>::empty(),
            final(self).inner.has_mutex(id),
            old(self).inner.has_mutex(id) ==> final(self).inner.ledger() == old(
                self,
            ).inner.ledger() && final(self).inner.same_ids(&old(self).inner),
            !old(self).inner.has_mutex(id) ==> final(self).inner.ledger() == old(
                self,
            ).inner.ledger().register(1) && final(self).inner.mutex_id2res_id@ == old(
                self,
            ).inner.mutex_id2res_id@.insert(id, old(self).inner.available_list@.len() as usize)
                && final(self).inner.semaphore_id2res_id@ == old(self).inner.semaphore_id2res_id@,
            final(self).inner.wf(),
            final(self).inner.same_process(&old(self).inner),
            final(self).pid == old(self).pid,
            final(self).semaphore_list == old(self).semaphore_list,
            final(self).condvar_list == old(self).condvar_list,
    {
        let id = free_slot(&self.mutex_list);
        let mutex = Some(AnyMutex::new(blocking));
        if id < self.mutex_list.len() {
            self.mutex_list[id] = mutex;
        } else {
            self.mutex_list.push(mutex);
        }
        self.inner.ensure_mutex_res_id(id);
        id
    }

    /// Creates a semaphore with `res_count` permits and puts it in the
    /// first free slot. The slot's index is the semaphore id; where that id
    /// is used for the first time, the semaphore is registered as a
    /// resource with `res_count` units.
    pub fn semaphore_create(&mut self, res_count: usize) -> (id: usize)
        requires
            old(self).inner.wf(),
            res_count <= isize::MAX,
        ensures
            slot_filled(old(self).semaphore_list@, final(self).semaphore_list@, id),
            final(self).semaphore_list@[id as int]->0.count() == res_count,
            final(self).semaphore_list@[id as int]->0.waiters() == Seq::<usize>::empty(),
            final(self).semaphore_list@[id as int]->0.wf(),
            final(self).inner.has_semaphore(id),
            old(self).inner.has_semaphore(id) ==> final(self).inner.ledger() == old(
                self,
            ).inner.ledger() && final(self).inner.same_ids(&old(self).inner),
            !old(self).inner.has_semaphore(id) ==> final(self).inner.ledger() == old(
                self,
            ).inner.ledger().register(res_count) && final(self).inner.semaphore_id2res_id@ == old(
                self,
            ).inner.semaphore_id2res_id@.insert(id, old(self).inner.available_list@.len() as usize)
                && final(self).inner.mutex_id2res_id@ == old(self).inner.mutex_id2res_id@,
            final(self).inner.wf(),
            final(self).inner.same_process(&old(self).inner),
            final(self).pid == old(self).pid,
            final(self).mutex_list == old(self).mutex_list,
            final(self).condvar_list == old(self).condvar_list,
    {
        let id = free_slot(&self.semaphore_list);
        let semaphore = Some(Semaphore::new(res_count));
        if id < self.semaphore_list.len() {
            self.semaphore_list[id] = semaphore;
        } else {
            self.semaphore_list.push(semaphore);
        }
        self.inner.ensure_semaphore_res_id(id, res_count);
        id
    }

    /// Creates a condition variable and puts it in the first free slot,
    /// whose index is its id.
    pub fn condvar_create(&mut self) -> (id: usize)
        ensures
            slot_filled(old(self).condvar_list@, final(self).condvar_list@, id),
            final(self).condvar_list@[id as int]->0.waiters() == Seq::<usize>::empty(),
            final(self).inner == old(self).inner,
            final(self).pid == old(self).pid,
            final(self).mutex_list == old(self).mutex_list,
            final(self).semaphore_list == old(self).semaphore_list,
    {
        let id = free_slot(&self.condvar_list);
        let condvar = Some(Condvar::new());
        if id < self.condvar_list.len() {
            self.condvar_list[id] = condvar;
        } else {
            self.condvar_list.push(condvar);
        }
        id
    }

    /// The process id.
    pub fn getpid(&self) -> (pid: usize)
        ensures
            pid == self.pid,
    {
        self.pid
    }

    /// Lays out the arguments `args` of a new program below `ustack_top`:
    /// first the argument vector, one word per argument and one for the
    /// zero that ends it; below it the arguments, the first one highest,
    /// each followed by a zero byte; the stack pointer is the address of the
    /// last argument, rounded down to a word boundary. Only a process with a
    /// single thread can take a new program.
    pub fn exec(&self, ustack_top: usize, args: &Vec<Vec<u8>>) -> (stack: ExecStack)
        requires
            self.inner.tasks@.len() == 1,
            (args@.len() + 1) * WORD + args_bytes(args@, args@.len() as int) <= ustack_top,
        ensures
            stack.argv_base == ustack_top - (args@.len() + 1) * WORD,
            stack.argv@.len() == args@.len() + 1,
            stack.argv@[args@.len() as int] == 0,
            forall|i: int|
                0 <= i < args@.len() ==> stack.argv@[i] == stack.argv_base - args_bytes(
                    args@,
                    i + 1,
                ),
            ({
                let lowest = stack.argv_base - args_bytes(args@, args@.len() as int);
                stack.user_sp == lowest - lowest % (WORD as int)
            }),
    {
        let count = args.len();
        proof {
            lemma_args_bytes_grow(args@, 0, count as int);
        }
        let argv_base = ustack_top - (count + 1) * WORD;
        let mut user_sp = argv_base;
        let mut argv: Vec<usize> = Vec::new();
        let mut i: usize = 0;
        while i < count
            invariant
                i <= count,
                count == args@.len(),
                argv@.len() == i,
                args_bytes(args@, count as int) <= argv_base,
                user_sp == argv_base - args_bytes(args@, i as int),
                forall|k: int| 0 <= k < i ==> argv@[k] == argv_base - args_bytes(args@, k + 1),
            decreases count - i,
        {
            proof {
                lemma_args_bytes_grow(args@, i as int + 1, count as int);
            }
            user_sp -= args[i].len() + 1;
            argv.push(user_sp);
            i += 1;
        }
        argv.push(0);
        user_sp -= user_sp % WORD;
        ExecStack { argv_base, argv, user_sp }
    }
}

/// More arguments take no fewer bytes.
pub proof fn lemma_args_bytes_grow(args: Seq<Vec<u8>>, n: int, m: int)
    requires
        n <= m,
    ensures
        0 <= args_bytes(args, n) <= args_bytes(args, m),
    decreases m - n, m,
{
    if n < m {
        lemma_args_bytes_grow(args, n, m - 1);
    } else if n > 0 {
        lemma_args_bytes_grow(args, n - 1, n - 1);
    }
}

} // verus!
