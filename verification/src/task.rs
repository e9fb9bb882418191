//! The record the kernel keeps of one thread.

use std::collections::BTreeMap;
use vstd::prelude::*;

verus! {

/// Where a task is in its life.
#[derive(Copy, Clone, PartialEq, Eq, Structural, Debug)]
pub enum TaskStatus {
    /// Not yet set up.
    UnInit,
    /// Ready to run.
    Ready,
    /// Running.
    Running,
    /// Waiting on a mutex, a semaphore or a condition variable.
    Blocked,
    /// Exited.
    Exited,
}

/// The task control block of one thread.
#[derive(Clone)]
pub struct TaskControlBlock {
    /// Where the task is in its life.
    pub task_status: TaskStatus,
    /// How often the task made each system call, by the call's number.
    pub syscall_cnt: BTreeMap<usize, u32>,
    /// When the task was created, in milliseconds.
    pub birth: usize,
}

impl TaskControlBlock {
    /// How often the task made system call `id`.
    pub open spec fn count_of(self, id: usize) -> int {
        if self.syscall_cnt@.contains_key(id) {
            self.syscall_cnt@[id] as int
        } else {
            0
        }
    }

    /// Whether this is a task as it is created at time `birth`: not yet
    /// set up, and without a system call.
    pub open spec fn is_new(self, birth: usize) -> bool {
        &&& self.task_status == TaskStatus::UnInit
        &&& self.birth == birth
        &&& self.syscall_cnt@ == Map::<usize, u32>::empty()
    }

    /// A task created at time `birth` that has made no system call.
    pub fn new(birth: usize) -> (task: TaskControlBlock)
        ensures
            task.is_new(birth),
    {
        TaskControlBlock { task_status: TaskStatus::UnInit, syscall_cnt: BTreeMap::new(), birth }
    }

    /// Counts one more call of system call `id`.
    pub fn update_cnt(&mut self, id: &usize)
        requires
            old(self).count_of(*id) < u32::MAX,
        ensures
            final(self).count_of(*id) == old(self).count_of(*id) + 1,
            final(self).syscall_cnt@ == old(self).syscall_cnt@.insert(
                *id,
                (old(self).count_of(*id) + 1) as u32,
            ),
            final(self).task_status == old(self).task_status,
            final(self).birth == old(self).birth,
    {
        broadcast use vstd::std_specs::btree::group_btree_axioms;
        let before: u32 = match self.syscall_cnt.get(id) {
            Some(n) => *n,
            None => 0,
        };
        self.syscall_cnt.insert(*id, before + 1);
    }

    /// The system-call counts.
    pub fn get_cnt(&self) -> (cnt: &BTreeMap<usize, u32>)
        ensures
            cnt == &self.syscall_cnt,
    {
        &self.syscall_cnt
    }

    /// When the task was created.
    pub fn get_birth(&self) -> (birth: usize)
        ensures
            birth == self.birth,
    {
        self.birth
    }
}

} // verus!
