use kernel_sync::id::RecycleAllocator;
use kernel_sync::process::{ProcessControlBlock, ProcessControlBlockInner};
use kernel_sync::task::{TaskControlBlock, TaskStatus};

fn conserved(p: &ProcessControlBlockInner) -> bool {
    (0..p.available_list.len()).all(|r| {
        let held: usize = p.allocation_matrix.iter().map(|row| row[r]).sum();
        p.available_list[r] + held == p.total_list[r]
    }) && p.allocation_matrix.iter().all(|row| row.len() == p.available_list.len())
        && p.need_matrix.iter().all(|row| row.len() == p.available_list.len())
        && p.need_matrix.len() == p.allocation_matrix.len()
}

/// Whether some order lets every thread finish, by trying every order.
fn some_order_is_safe(p: &ProcessControlBlockInner) -> bool {
    fn go(p: &ProcessControlBlockInner, done: &mut Vec<bool>, work: &mut Vec<usize>) -> bool {
        if done.iter().all(|d| *d) {
            return true;
        }
        for t in 0..done.len() {
            if !done[t] && (0..work.len()).all(|r| p.need_matrix[t][r] <= work[r]) {
                done[t] = true;
                for r in 0..work.len() {
                    work[r] += p.allocation_matrix[t][r];
                }
                let found = go(p, done, work);
                for r in 0..work.len() {
                    work[r] -= p.allocation_matrix[t][r];
                }
                done[t] = false;
                if found {
                    return true;
                }
            }
        }
        false
    }
    let mut done = vec![false; p.allocation_matrix.len()];
    let mut work = p.available_list.clone();
    go(p, &mut done, &mut work)
}

fn ledger(available: Vec<usize>, allocation: Vec<Vec<usize>>, need: Vec<Vec<usize>>) -> ProcessControlBlockInner {
    let mut p = ProcessControlBlockInner::new();
    p.deadlock_detect = true;
    p.total_list = (0..available.len())
        .map(|r| available[r] + allocation.iter().map(|row| row[r]).sum::<usize>())
        .collect();
    p.available_list = available;
    p.allocation_matrix = allocation;
    p.need_matrix = need;
    p
}

#[test]
fn new_process_has_one_thread_and_no_resource() {
    let process = ProcessControlBlock::new(3, 99);
    assert_eq!(process.getpid(), 3);
    assert_eq!(process.inner.thread_count(), 1);
    assert_eq!(process.inner.get_task(0).get_birth(), 99);
    assert!(process.inner.available_list.is_empty());
    assert_eq!(process.inner.allocation_matrix, vec![Vec::<usize>::new()]);
    assert_eq!(process.inner.need_matrix, vec![Vec::<usize>::new()]);
    assert!(!process.inner.deadlock_detect);
    assert!(!process.inner.deadlock_detected());
    assert_eq!(process.inner.fd_table, vec![Some(0), Some(1), Some(2)]);
    let mut process = process;
    assert_eq!(process.inner.alloc_fd(), 3);
}

#[test]
fn resources_are_registered_on_first_use() {
    let mut process = ProcessControlBlock::new(1, 0);
    let p = &mut process.inner;
    assert_eq!(p.ensure_mutex_res_id(8), 0);
    assert_eq!(p.ensure_semaphore_res_id(8, 5), 1);
    assert_eq!(p.ensure_mutex_res_id(3), 2);
    // later uses resolve to the same resource and register nothing
    assert_eq!(p.ensure_mutex_res_id(8), 0);
    assert_eq!(p.ensure_semaphore_res_id(8, 9), 1);
    assert_eq!(p.ensure_mutex_res_id(3), 2);
    assert_eq!(p.available_list, vec![1, 5, 1]);
    assert_eq!(p.total_list, vec![1, 5, 1]);
    assert_eq!(p.allocation_matrix, vec![vec![0, 0, 0]]);
    assert_eq!(p.get_mutex_res_id(3), 2);
    assert_eq!(p.get_semaphore_res_id(8), 1);
}

#[test]
fn new_threads_get_an_id_a_slot_and_a_row() {
    let mut process = ProcessControlBlock::new(1, 0);
    let p = &mut process.inner;
    p.alloc_semaphore_res_id(0, 2);
    assert_eq!(p.create_thread(10), 1);
    assert_eq!(p.create_thread(20), 2);
    assert_eq!(p.thread_count(), 3);
    assert_eq!(p.get_task(2).get_birth(), 20);
    assert_eq!(p.allocation_matrix, vec![vec![0], vec![0], vec![0]]);
    // thread 1 takes a unit and exits: its row is cleared and stays
    p.need(1, 0);
    p.alloc_task_resource(1, 0);
    p.dealloc_task_resource(1, 0, true);
    p.tasks[1] = None;
    p.dealloc_tid(1);
    assert_eq!(p.allocation_matrix, vec![vec![0], vec![0], vec![0]]);
    assert_eq!(p.available_list, vec![2]);
    // the id is handed out again, with its slot and its row
    assert_eq!(p.create_thread(30), 1);
    assert_eq!(p.thread_count(), 3);
    assert_eq!(p.get_task(1).get_birth(), 30);
    assert_eq!(p.need_matrix, vec![vec![0], vec![0], vec![0]]);
    assert_eq!(p.create_thread(40), 3);
    assert_eq!(p.allocation_matrix.len(), 4);
}

#[test]
fn registering_appends_a_column() {
    let mut process = ProcessControlBlock::new(1, 0);
    let p = process.inner_exclusive_access();
    p.init_task_resource(1);
    p.alloc_mutex_res_id(10);
    p.alloc_semaphore_res_id(10, 4);
    p.alloc_mutex_res_id(2);
    assert_eq!(p.get_mutex_res_id(10), 0);
    assert_eq!(p.get_semaphore_res_id(10), 1);
    assert_eq!(p.get_mutex_res_id(2), 2);
    assert_eq!(p.available_list, vec![1, 4, 1]);
    assert_eq!(p.total_list, vec![1, 4, 1]);
    assert_eq!(p.allocation_matrix, vec![vec![0, 0, 0], vec![0, 0, 0]]);
    assert_eq!(p.need_matrix, vec![vec![0, 0, 0], vec![0, 0, 0]]);
    assert!(conserved(p));
}

#[test]
fn thread_rows_grow_lazily_and_keep_what_is_there() {
    let mut process = ProcessControlBlock::new(1, 0);
    let p = &mut process.inner;
    p.alloc_semaphore_res_id(0, 2);
    p.need(0, 0);
    p.alloc_task_resource(0, 0);
    p.init_task_resource(3);
    assert_eq!(p.allocation_matrix, vec![vec![1], vec![0], vec![0], vec![0]]);
    assert_eq!(p.need_matrix, vec![vec![0], vec![0], vec![0], vec![0]]);
    p.init_task_resource(0);
    p.init_task_resource(2);
    assert_eq!(p.allocation_matrix, vec![vec![1], vec![0], vec![0], vec![0]]);
    assert!(conserved(p));
}

#[test]
fn request_grant_release_move_units() {
    let mut process = ProcessControlBlock::new(1, 0);
    let p = &mut process.inner;
    p.init_task_resource(1);
    p.alloc_semaphore_res_id(0, 5);
    p.need(1, 0);
    p.need(1, 0);
    p.need(1, 0);
    assert_eq!(p.need_matrix[1][0], 3);
    assert_eq!(p.available_list[0], 5);
    p.alloc_task_resource(1, 0);
    assert_eq!(p.need_matrix[1][0], 0);
    assert_eq!(p.allocation_matrix[1][0], 3);
    assert_eq!(p.available_list[0], 2);
    assert!(conserved(p));
    // granting with nothing asked moves nothing
    p.alloc_task_resource(0, 0);
    assert_eq!(p.allocation_matrix[0][0], 0);
    assert_eq!(p.available_list[0], 2);
    // one unit back, and the request withdrawn
    p.need(1, 0);
    p.dealloc_task_resource(1, 0, false);
    assert_eq!(p.allocation_matrix[1][0], 2);
    assert_eq!(p.need_matrix[1][0], 0);
    assert_eq!(p.available_list[0], 3);
    // a thread that holds nothing gives nothing back
    p.need(0, 0);
    p.dealloc_task_resource(0, 0, false);
    assert_eq!(p.allocation_matrix[0][0], 0);
    assert_eq!(p.need_matrix[0][0], 0);
    assert_eq!(p.available_list[0], 3);
    assert!(conserved(p));
}

#[test]
fn thread_exit_gives_everything_back() {
    let mut process = ProcessControlBlock::new(1, 0);
    let p = &mut process.inner;
    p.init_task_resource(1);
    p.alloc_mutex_res_id(0);
    p.alloc_semaphore_res_id(0, 3);
    p.need(1, 0);
    p.alloc_task_resource(1, 0);
    p.need(1, 1);
    p.need(1, 1);
    p.alloc_task_resource(1, 1);
    p.need(0, 1);
    p.alloc_task_resource(0, 1);
    p.need(1, 1);
    assert_eq!(p.available_list, vec![0, 0]);
    // the resource id is not looked at on exit
    p.dealloc_task_resource(1, 17, true);
    assert_eq!(p.available_list, vec![1, 2]);
    assert_eq!(p.allocation_matrix, vec![vec![0, 1], vec![0, 0]]);
    assert_eq!(p.need_matrix, vec![vec![0, 0], vec![0, 0]]);
    assert_eq!(p.allocation_matrix.len(), 2);
    assert!(conserved(p));
}

#[test]
fn ledger_is_conserved_through_a_run() {
    let mut process = ProcessControlBlock::new(1, 0);
    let p = &mut process.inner;
    for t in 1..4 {
        p.init_task_resource(t);
    }
    p.alloc_mutex_res_id(0);
    p.alloc_semaphore_res_id(0, 3);
    p.alloc_semaphore_res_id(1, 2);
    let mut seed: u64 = 12345;
    for _ in 0..500 {
        seed = seed.wrapping_mul(6364136223846793005).wrapping_add(1442695040888963407);
        let t = ((seed >> 33) % 4) as usize;
        let r = ((seed >> 40) % 3) as usize;
        match (seed >> 50) % 4 {
            0 => p.need(t, r),
            1 => {
                if p.need_matrix[t][r] <= p.available_list[r] {
                    p.alloc_task_resource(t, r)
                }
            }
            2 => p.dealloc_task_resource(t, r, false),
            _ => p.dealloc_task_resource(t, r, true),
        }
        assert!(conserved(p));
        assert_eq!(p.total_list, vec![1, 3, 2]);
    }
}

#[test]
fn safety_check_on_known_ledgers() {
    // no thread at all, and threads that ask for nothing
    assert!(!ledger(vec![], vec![], vec![]).deadlock_detected());
    assert!(!ledger(vec![0], vec![vec![1], vec![0]], vec![vec![0], vec![0]]).deadlock_detected());
    // a chain: thread 2 can finish, then thread 1, then thread 0
    let chain = ledger(
        vec![0, 0],
        vec![vec![0, 0], vec![1, 0], vec![0, 1]],
        vec![vec![1, 1], vec![0, 1], vec![0, 0]],
    );
    assert!(!chain.deadlock_detected());
    // a cycle of two
    let cycle = ledger(vec![0, 0], vec![vec![1, 0], vec![0, 1]], vec![vec![0, 1], vec![1, 0]]);
    assert!(cycle.deadlock_detected());
    // a thread that asks for more than there is
    let greedy = ledger(vec![1], vec![vec![0]], vec![vec![2]]);
    assert!(greedy.deadlock_detected());
}

#[test]
fn safety_check_is_off_without_detection() {
    let mut cycle = ledger(vec![0, 0], vec![vec![1, 0], vec![0, 1]], vec![vec![0, 1], vec![1, 0]]);
    assert!(cycle.deadlock_detected());
    cycle.deadlock_detect = false;
    assert!(!cycle.deadlock_detected());
}

#[test]
fn safety_check_agrees_with_trying_every_order() {
    let mut seed: u64 = 2024;
    let mut next = |bound: u64| {
        seed = seed.wrapping_mul(6364136223846793005).wrapping_add(1442695040888963407);
        ((seed >> 33) % bound) as usize
    };
    let mut deadlocks = 0;
    let mut safe = 0;
    for _ in 0..3000 {
        let threads = next(6);
        let resources = next(6);
        let available: Vec<usize> = (0..resources).map(|_| next(3)).collect();
        let allocation: Vec<Vec<usize>> =
            (0..threads).map(|_| (0..resources).map(|_| next(3)).collect()).collect();
        let need: Vec<Vec<usize>> =
            (0..threads).map(|_| (0..resources).map(|_| next(5)).collect()).collect();
        let p = ledger(available, allocation, need);
        let found = p.deadlock_detected();
        assert_eq!(found, !some_order_is_safe(&p));
        if found {
            deadlocks += 1;
        } else {
            safe += 1;
        }
    }
    assert!(deadlocks > 100);
    assert!(safe > 100);
}

#[test]
fn fork_copies_the_ledger_and_shares_nothing() {
    let mut parent = ProcessControlBlock::new(1, 0);
    parent.inner.alloc_mutex_res_id(4);
    parent.inner.alloc_semaphore_res_id(9, 2);
    parent.inner.need(0, 1);
    parent.inner.alloc_task_resource(0, 1);
    parent.inner.need(0, 0);
    parent.inner.deadlock_detect = true;
    let fd = parent.inner.alloc_fd();
    assert_eq!(fd, 3);
    parent.inner.fd_table[fd] = Some(77);

    let mut child = parent.fork(2, 50);
    assert_eq!(child.getpid(), 2);
    assert_eq!(parent.getpid(), 1);
    assert_eq!(child.inner.available_list, vec![1, 1]);
    assert_eq!(child.inner.total_list, vec![1, 2]);
    assert_eq!(child.inner.allocation_matrix, vec![vec![0, 1]]);
    assert_eq!(child.inner.need_matrix, vec![vec![1, 0]]);
    assert_eq!(child.inner.get_mutex_res_id(4), 0);
    assert_eq!(child.inner.get_semaphore_res_id(9), 1);
    assert_eq!(child.inner.fd_table, vec![Some(0), Some(1), Some(2), Some(77)]);
    assert_eq!(child.inner.thread_count(), 1);
    assert_eq!(child.inner.get_task(0).get_birth(), 50);
    assert!(!child.inner.deadlock_detect);

    // changes in the child leave the parent alone
    child.inner.alloc_task_resource(0, 0);
    child.inner.alloc_mutex_res_id(5);
    child.inner.init_task_resource(1);
    assert_eq!(parent.inner.available_list, vec![1, 1]);
    assert_eq!(parent.inner.allocation_matrix, vec![vec![0, 1]]);
    assert_eq!(parent.inner.need_matrix, vec![vec![1, 0]]);
    assert_eq!(parent.inner.mutex_id2res_id.len(), 1);
    // and the other way round
    parent.inner.dealloc_task_resource(0, 0, true);
    parent.inner.alloc_semaphore_res_id(1, 6);
    assert_eq!(child.inner.available_list, vec![0, 1, 1]);
    assert_eq!(child.inner.allocation_matrix, vec![vec![1, 1, 0], vec![0, 0, 0]]);
    assert_eq!(child.inner.semaphore_id2res_id.len(), 1);
    assert!(conserved(&parent.inner));
    assert!(conserved(&child.inner));
}

#[test]
fn descriptors_are_the_first_free_slot() {
    let mut p = ProcessControlBlockInner::new();
    assert_eq!(p.alloc_fd(), 0);
    assert_eq!(p.fd_table, vec![None]);
    // a free slot is handed out again until it is taken
    assert_eq!(p.alloc_fd(), 0);
    p.fd_table[0] = Some(1);
    assert_eq!(p.alloc_fd(), 1);
    p.fd_table[1] = Some(2);
    assert_eq!(p.alloc_fd(), 2);
    p.fd_table[2] = Some(3);
    p.fd_table[1] = None;
    assert_eq!(p.alloc_fd(), 1);
    assert_eq!(p.fd_table, vec![Some(1), None, Some(3)]);
}

#[test]
fn thread_ids_are_recycled() {
    let mut p = ProcessControlBlockInner::new();
    assert_eq!(p.alloc_tid(), 0);
    assert_eq!(p.alloc_tid(), 1);
    assert_eq!(p.alloc_tid(), 2);
    p.dealloc_tid(0);
    p.dealloc_tid(1);
    assert_eq!(p.alloc_tid(), 1);
    assert_eq!(p.alloc_tid(), 0);
    assert_eq!(p.alloc_tid(), 3);
    let mut a = RecycleAllocator::new();
    assert_eq!(a.alloc_id(), 0);
    a.dealloc_id(0);
    assert_eq!(a.recycled, vec![0]);
    assert_eq!(a.current, 1);
}

#[test]
fn task_counts_its_system_calls() {
    let mut task = TaskControlBlock::new(1234);
    assert_eq!(task.get_birth(), 1234);
    assert!(task.task_status == TaskStatus::UnInit);
    assert!(task.get_cnt().is_empty());
    task.update_cnt(&64);
    task.update_cnt(&93);
    task.update_cnt(&64);
    assert_eq!(task.get_cnt().get(&64), Some(&2));
    assert_eq!(task.get_cnt().get(&93), Some(&1));
    assert_eq!(task.get_cnt().get(&1), None);
    assert_eq!(task.get_cnt().len(), 2);
    assert_eq!(task.get_birth(), 1234);
}
