//! What the process-management system calls compute, apart from reading
//! the clock and touching the address space.

use vstd::prelude::*;
use crate::task::{TaskControlBlock, TaskStatus};

verus! {

/// The number of system calls that are counted per task.
pub const MAX_SYSCALL_NUM: usize = 500;

/// The size of a page in bytes.
pub const PAGE_SIZE: usize = 4096;

/// A point in time: seconds, and microseconds within the second.
#[derive(Debug)]
pub struct TimeVal {
    pub sec: usize,
    pub usec: usize,
}

/// What a task learns about itself.
pub struct TaskInfo {
    /// Where the task is in its life.
    pub status: TaskStatus,
    /// How often the task made each system call, by the call's number.
    pub syscall_times: Vec<u32>,
    /// How long the task has been running, in milliseconds.
    pub time: usize,
}

/// The time `curr_time_us`, given in microseconds, as seconds and microseconds.
pub fn sys_get_time(curr_time_us: usize) -> (ts: TimeVal)
    ensures
        ts.sec == curr_time_us / 1000000,
        ts.usec == curr_time_us % 1000000,
{
    TimeVal { sec: curr_time_us / 1000000, usec: curr_time_us % 1000000 }
}

/// What the running task `task` is told about itself at time `curr_time_us`:
/// that it is running, how often it made each system call, and the
/// thousandth part of the time since it was created.
pub fn sys_task_info(curr_time_us: usize, task: &TaskControlBlock) -> (info: TaskInfo)
    requires
        task.birth <= curr_time_us,
        forall|id: usize| task.syscall_cnt@.contains_key(id) ==> id < MAX_SYSCALL_NUM,
    ensures
        info.status == TaskStatus::Running,
        info.time == (curr_time_us - task.birth) / 1000,
        info.syscall_times@.len() == MAX_SYSCALL_NUM,
        forall|id: usize|
            id < MAX_SYSCALL_NUM ==> info.syscall_times@[id as int] == task.count_of(id),
{
    broadcast use vstd::std_specs::btree::group_btree_axioms;
    let mut syscall_times: Vec<u32> = Vec::new();
    let mut id: usize = 0;
    while id < MAX_SYSCALL_NUM
        invariant
            id <= MAX_SYSCALL_NUM,
            syscall_times@.len() == id,
            forall|k: usize| k < id ==> syscall_times@[k as int] == task.count_of(k),
        decreases MAX_SYSCALL_NUM - id,
    {
        let times: u32 = match task.syscall_cnt.get(&id) {
            Some(n) => *n,
            None => 0,
        };
        syscall_times.push(times);
        id += 1;
    }
    TaskInfo {
        status: TaskStatus::Running,
        syscall_times,
        time: (curr_time_us - task.birth) / 1000,
    }
}

/// Whether a request to map `len` bytes at `start` with the permissions
/// `prot` is turned down before the address space is looked at: `start` is
/// not at a page boundary, `prot` has a bit set, or `len` is zero.
pub open spec fn mmap_refused(start: usize, len: usize, prot: usize) -> bool {
    start % PAGE_SIZE != 0 || prot & !0x7usize != 0 || prot & 0x7usize != 0 || len == 0
}

/// Whether a request to unmap `len` bytes at `start` is turned down before
/// the address space is looked at: `start` is not at a page boundary, or
/// `len` is zero.
pub open spec fn munmap_refused(start: usize, len: usize) -> bool {
    start % PAGE_SIZE != 0 || len == 0
}

/// Checks a request to map memory: `Some(-1)` where it is turned down,
/// `None` where the mapping has to be tried.
pub fn sys_mmap(start: usize, len: usize, prot: usize) -> (res: Option<isize>)
    ensures
        res == (if mmap_refused(start, len, prot) {
            Some(-1isize)
        } else {
            None
        }),
{
    if start % PAGE_SIZE != 0 {
        return Some(-1);
    }
    if prot & !0x7usize != 0 {
        return Some(-1);
    }
    if prot & 0x7usize != 0 {
        return Some(-1);
    }
    if len == 0 {
        return Some(-1);
    }
    None
}

/// Checks a request to unmap memory: `Some(-1)` where it is turned down,
/// `None` where the unmapping has to be tried.
pub fn sys_munmap(start: usize, len: usize) -> (res: Option<isize>)
    ensures
        res == (if munmap_refused(start, len) {
            Some(-1isize)
        } else {
            None
        }),
{
    if start % PAGE_SIZE != 0 {
        return Some(-1);
    }
    if len == 0 {
        return Some(-1);
    }
    None
}

/// What a change of the program break returns: the break as it was before,
/// or -1 where the change did not take place.
pub fn sys_sbrk(old_brk: Option<usize>) -> (res: isize)
    requires
        old_brk is Some ==> old_brk->0 <= isize::MAX,
    ensures
        res == (match old_brk {
            Some(brk) => brk as isize,
            None => -1isize,
        }),
{
    match old_brk {
        Some(brk) => brk as isize,
        None => -1,
    }
}

} // verus!
