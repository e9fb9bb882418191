use kernel_sync::condvar::Condvar;
use kernel_sync::mutex::{AnyMutex, LockResult, Mutex, MutexBlocking, MutexSpin, DEADLOCK};
use kernel_sync::process::ProcessControlBlock;
use kernel_sync::semaphore::Semaphore;

/// A process with `threads` thread rows and `mutexes` registered mutexes.
fn process_with(threads: usize, mutexes: usize) -> ProcessControlBlock {
    let mut process = ProcessControlBlock::new(7, 0);
    for t in 1..threads {
        process.inner.init_task_resource(t);
    }
    for m in 0..mutexes {
        process.inner.alloc_mutex_res_id(m);
    }
    process
}

#[test]
fn blocking_mutex_is_handed_to_the_waiter() {
    let mut process = process_with(2, 1);
    let p = &mut process.inner;
    let mut m = MutexBlocking::new();
    assert_eq!(m.lock(p, 0, 0), LockResult::Acquired);
    assert!(m.inner.locked);
    assert_eq!(p.allocation_matrix[0][0], 1);
    assert_eq!(p.available_list[0], 0);

    assert_eq!(m.lock(p, 1, 0), LockResult::Blocked);
    assert_eq!(m.inner.wait_queue.iter().copied().collect::<Vec<usize>>(), vec![1]);
    assert_eq!(p.need_matrix[1][0], 1);

    assert_eq!(m.unlock(p, 0, 0), Some(1));
    assert!(m.inner.locked);
    assert!(m.inner.wait_queue.is_empty());
    assert_eq!(p.allocation_matrix[0][0], 0);
    assert_eq!(p.allocation_matrix[1][0], 1);
    assert_eq!(p.need_matrix[1][0], 0);
    assert_eq!(p.available_list[0], 0);

    assert_eq!(m.unlock(p, 1, 0), None);
    assert!(!m.inner.locked);
    assert_eq!(p.available_list[0], 1);
    assert_eq!(p.allocation_matrix[1][0], 0);
}

#[test]
fn semaphore_wakes_waiters_in_arrival_order() {
    let mut process = process_with(3, 0);
    let p = &mut process.inner;
    p.alloc_semaphore_res_id(0, 1);
    let mut s = Semaphore::new(1);
    assert_eq!(s.down(p, 0, 0), LockResult::Acquired);
    assert_eq!(s.inner.count, 0);
    assert_eq!(s.down(p, 1, 0), LockResult::Blocked);
    assert_eq!(s.inner.count, -1);
    assert_eq!(s.down(p, 2, 0), LockResult::Blocked);
    assert_eq!(s.inner.count, -2);
    assert_eq!(s.inner.wait_queue.iter().copied().collect::<Vec<usize>>(), vec![1, 2]);

    assert_eq!(s.up(p, 0, 0), Some(1));
    assert_eq!(s.inner.count, -1);
    assert_eq!(p.allocation_matrix[1][0], 1);
    assert_eq!(p.allocation_matrix[0][0], 0);
    assert_eq!(s.up(p, 1, 0), Some(2));
    assert_eq!(s.inner.count, 0);
    assert_eq!(p.allocation_matrix[2][0], 1);
    assert!(s.inner.wait_queue.is_empty());
    assert_eq!(s.up(p, 2, 0), None);
    assert_eq!(s.inner.count, 1);
    assert_eq!(p.available_list[0], 1);
}

#[test]
fn lock_that_closes_a_cycle_is_refused() {
    let mut process = process_with(2, 2);
    let p = &mut process.inner;
    p.deadlock_detect = true;
    let mut m0 = MutexBlocking::new();
    let mut m1 = MutexBlocking::new();
    assert_eq!(m0.lock(p, 0, 0), LockResult::Acquired);
    assert_eq!(m1.lock(p, 1, 1), LockResult::Acquired);
    assert_eq!(m1.lock(p, 0, 1), LockResult::Blocked);
    let res = m0.lock(p, 1, 0);
    assert_eq!(res, LockResult::WouldDeadlock);
    assert_eq!(res.code(), DEADLOCK);
    assert_eq!(res.code(), -0xDEAD);
    // the refused thread is not queued, and its request stays on record
    assert!(m0.inner.wait_queue.is_empty());
    assert!(m0.inner.locked);
    assert_eq!(p.need_matrix[1][0], 1);
    assert_eq!(p.allocation_matrix[0], vec![1, 0]);
    assert_eq!(p.allocation_matrix[1], vec![0, 1]);
    assert!(p.deadlock_detected());
}

#[test]
fn lock_that_closes_a_cycle_blocks_without_detection() {
    let mut process = process_with(2, 2);
    let p = &mut process.inner;
    let mut m0 = MutexBlocking::new();
    let mut m1 = MutexBlocking::new();
    assert_eq!(m0.lock(p, 0, 0), LockResult::Acquired);
    assert_eq!(m1.lock(p, 1, 1), LockResult::Acquired);
    assert_eq!(m1.lock(p, 0, 1), LockResult::Blocked);
    let res = m0.lock(p, 1, 0);
    assert_eq!(res, LockResult::Blocked);
    assert_eq!(res.code(), 0);
    assert_eq!(m0.inner.wait_queue.iter().copied().collect::<Vec<usize>>(), vec![1]);
    assert!(!p.deadlock_detected());
}

#[test]
fn condvar_wait_then_signal_reacquires_the_mutex() {
    let mut process = process_with(2, 1);
    let p = &mut process.inner;
    let mut m = MutexBlocking::new();
    let mut cv = Condvar::new();
    assert_eq!(m.lock(p, 0, 0), LockResult::Acquired);
    // thread 0 waits: the mutex is released and the thread is queued
    assert_eq!(cv.wait(&mut m, p, 0, 0), None);
    assert!(!m.inner.locked);
    assert_eq!(p.available_list[0], 1);
    assert_eq!(cv.inner.wait_queue.iter().copied().collect::<Vec<usize>>(), vec![0]);
    // thread 1 locks, signals and unlocks
    assert_eq!(m.lock(p, 1, 0), LockResult::Acquired);
    assert_eq!(cv.signal(), Some(0));
    assert!(cv.inner.wait_queue.is_empty());
    assert_eq!(m.unlock(p, 1, 0), None);
    // thread 0 resumes and holds the mutex again
    let res = cv.reacquire(&mut m, p, 0, 0);
    assert_eq!(res, LockResult::Acquired);
    assert_eq!(res.code(), 0);
    assert!(m.inner.locked);
    assert_eq!(p.allocation_matrix[0][0], 1);
    assert_eq!(p.need_matrix[0][0], 0);
    assert_eq!(p.available_list[0], 0);
}

#[test]
fn condvar_signal_without_waiters_does_nothing() {
    let mut cv = Condvar::new();
    assert_eq!(cv.signal(), None);
    assert!(cv.inner.wait_queue.is_empty());
}

#[test]
fn condvar_wakes_in_arrival_order() {
    let mut process = process_with(3, 1);
    let p = &mut process.inner;
    let mut m = MutexSpin::new();
    let mut cv = Condvar::new();
    for t in [2usize, 0, 1] {
        assert_eq!(m.lock(p, t, 0), LockResult::Acquired);
        assert_eq!(cv.wait(&mut m, p, t, 0), None);
    }
    assert_eq!(cv.signal(), Some(2));
    assert_eq!(cv.signal(), Some(0));
    assert_eq!(cv.signal(), Some(1));
    assert_eq!(cv.signal(), None);
}

#[test]
fn woken_waiter_is_queued_at_a_held_mutex() {
    let mut process = process_with(2, 1);
    let p = &mut process.inner;
    let mut m = MutexBlocking::new();
    let mut cv = Condvar::new();
    assert_eq!(m.lock(p, 0, 0), LockResult::Acquired);
    assert_eq!(cv.wait(&mut m, p, 0, 0), None);
    assert_eq!(m.lock(p, 1, 0), LockResult::Acquired);
    assert_eq!(cv.signal(), Some(0));
    // thread 1 still holds the mutex when thread 0 resumes
    assert_eq!(cv.reacquire(&mut m, p, 0, 0), LockResult::Blocked);
    assert_eq!(m.inner.wait_queue.iter().copied().collect::<Vec<usize>>(), vec![0]);
    assert_eq!(p.need_matrix[0][0], 1);
    assert_eq!(m.unlock(p, 1, 0), Some(0));
    assert_eq!(p.allocation_matrix[0][0], 1);
    assert!(m.inner.locked);
}

#[test]
fn woken_waiter_is_refused_where_it_would_deadlock() {
    let mut process = process_with(2, 2);
    let p = &mut process.inner;
    p.deadlock_detect = true;
    let mut m0 = MutexBlocking::new();
    let mut m1 = MutexBlocking::new();
    let mut cv = Condvar::new();
    // thread 0 holds m1 and waits on the condvar with m0
    assert_eq!(m1.lock(p, 0, 1), LockResult::Acquired);
    assert_eq!(m0.lock(p, 0, 0), LockResult::Acquired);
    assert_eq!(cv.wait(&mut m0, p, 0, 0), None);
    // thread 1 takes m0 and then blocks on m1
    assert_eq!(m0.lock(p, 1, 0), LockResult::Acquired);
    assert_eq!(cv.signal(), Some(0));
    assert_eq!(m1.lock(p, 1, 1), LockResult::Blocked);
    // thread 0 resumes: asking for m0 closes the cycle
    let res = cv.reacquire(&mut m0, p, 0, 0);
    assert_eq!(res, LockResult::WouldDeadlock);
    assert_eq!(res.code(), -0xDEAD);
    assert!(m0.inner.wait_queue.is_empty());
    assert_eq!(p.need_matrix[0][0], 1);
    assert_eq!(p.allocation_matrix[0], vec![0, 1]);
}

#[test]
fn spin_mutex_tells_the_caller_to_retry() {
    let mut process = process_with(2, 1);
    let p = &mut process.inner;
    let mut m = MutexSpin::new();
    assert_eq!(m.lock(p, 0, 0), LockResult::Acquired);
    assert!(m.locked);
    let need_before = p.need_matrix.clone();
    assert_eq!(m.lock(p, 1, 0), LockResult::Retry);
    assert_eq!(m.lock(p, 1, 0), LockResult::Retry);
    assert_eq!(p.need_matrix, need_before);
    assert_eq!(p.allocation_matrix[1][0], 0);
    assert_eq!(m.unlock(p, 0, 0), None);
    assert!(!m.locked);
    assert_eq!(m.lock(p, 1, 0), LockResult::Acquired);
    assert_eq!(p.allocation_matrix[1][0], 1);
    assert_eq!(p.allocation_matrix[0][0], 0);
}

#[test]
fn at_most_one_thread_holds_a_mutex() {
    let mut process = process_with(4, 1);
    let p = &mut process.inner;
    let mut m = MutexBlocking::new();
    assert_eq!(m.lock(p, 2, 0), LockResult::Acquired);
    for t in [0usize, 1, 3] {
        assert_eq!(m.lock(p, t, 0), LockResult::Blocked);
    }
    let mut owner = 2;
    for expected in [Some(0usize), Some(1), Some(3), None] {
        let holders: Vec<usize> = (0..4).filter(|t| p.allocation_matrix[*t][0] > 0).collect();
        assert_eq!(holders, vec![owner]);
        let woken = m.unlock(p, owner, 0);
        assert_eq!(woken, expected);
        if let Some(next) = woken {
            owner = next;
        }
    }
    assert!((0..4).all(|t| p.allocation_matrix[t][0] == 0));
    assert_eq!(p.available_list[0], 1);
}

#[test]
fn mutex_waiters_are_woken_in_arrival_order() {
    let mut process = process_with(5, 1);
    let p = &mut process.inner;
    let mut m = MutexBlocking::new();
    assert_eq!(m.lock(p, 0, 0), LockResult::Acquired);
    let arrivals = [3usize, 1, 4, 2];
    for t in arrivals {
        assert_eq!(m.lock(p, t, 0), LockResult::Blocked);
    }
    let mut owner = 0;
    let mut woken = Vec::new();
    while let Some(next) = m.unlock(p, owner, 0) {
        woken.push(next);
        owner = next;
    }
    assert_eq!(woken, arrivals.to_vec());
}

#[test]
fn semaphore_counter_is_permits_plus_ups_minus_downs() {
    let mut process = process_with(1, 0);
    let p = &mut process.inner;
    p.alloc_semaphore_res_id(5, 3);
    let mut s = Semaphore::new(3);
    assert_eq!(s.inner.count, 3);
    let ops = [false, false, true, false, true, true, false, false, true];
    let mut ups = 0isize;
    let mut downs = 0isize;
    for up in ops {
        if up {
            assert_eq!(s.up(p, 0, 5), None);
            ups += 1;
        } else {
            assert_eq!(s.down(p, 0, 5), LockResult::Acquired);
            downs += 1;
        }
        assert_eq!(s.inner.count, 3 + ups - downs);
        assert_eq!(p.available_list[0] + p.allocation_matrix[0][0], 3);
    }
    assert_eq!(s.inner.count, 2);
}

#[test]
fn refused_down_leaves_the_semaphore_as_it_was() {
    let mut process = process_with(2, 1);
    let p = &mut process.inner;
    p.deadlock_detect = true;
    p.alloc_semaphore_res_id(0, 1);
    let mut m = MutexBlocking::new();
    let mut s = Semaphore::new(1);
    assert_eq!(m.lock(p, 0, 0), LockResult::Acquired);
    assert_eq!(s.down(p, 1, 0), LockResult::Acquired);
    assert_eq!(m.lock(p, 1, 0), LockResult::Blocked);
    let res = s.down(p, 0, 0);
    assert_eq!(res, LockResult::WouldDeadlock);
    assert_eq!(s.inner.count, 0);
    assert!(s.inner.wait_queue.is_empty());
    assert_eq!(p.need_matrix[0][1], 1);
}

#[test]
fn either_variant_behaves_as_its_kind() {
    let mut process = process_with(2, 2);
    let p = &mut process.inner;
    let mut spin = AnyMutex::new(false);
    let mut blocking = AnyMutex::new(true);
    assert!(!spin.is_blocking() && blocking.is_blocking());
    assert!(!spin.is_locked() && !blocking.is_locked());
    assert_eq!(spin.lock(p, 0, 0), LockResult::Acquired);
    assert_eq!(blocking.lock(p, 0, 1), LockResult::Acquired);
    assert!(spin.is_locked() && blocking.is_locked());
    assert_eq!(spin.lock(p, 1, 0), LockResult::Retry);
    assert_eq!(blocking.lock(p, 1, 1), LockResult::Blocked);
    assert_eq!(spin.first_waiter(), None);
    assert_eq!(blocking.first_waiter(), Some(1));
    assert_eq!(spin.unlock(p, 0, 0), None);
    assert_eq!(blocking.unlock(p, 0, 1), Some(1));
    assert!(!spin.is_locked() && blocking.is_locked());
    assert_eq!(blocking.first_waiter(), None);
    assert_eq!(p.allocation_matrix, vec![vec![0, 0], vec![0, 1]]);
    assert_eq!(p.available_list, vec![1, 0]);
}

#[test]
fn lock_with_the_request_on_record_asks_for_nothing_more() {
    let mut process = process_with(2, 1);
    let p = &mut process.inner;
    let mut m = MutexBlocking::new();
    p.need(0, 0);
    assert_eq!(m.lock_requested(p, 0, 0), LockResult::Acquired);
    assert_eq!(p.allocation_matrix[0][0], 1);
    assert_eq!(p.need_matrix[0][0], 0);
    p.need(1, 0);
    assert_eq!(m.lock_requested(p, 1, 0), LockResult::Blocked);
    assert_eq!(p.need_matrix[1][0], 1);
    assert_eq!(m.unlock(p, 0, 0), Some(1));
    assert_eq!(p.allocation_matrix[1][0], 1);
}

#[test]
fn primitives_are_created_in_the_first_free_slot() {
    let mut process = ProcessControlBlock::new(1, 0);
    assert_eq!(process.mutex_create(true), 0);
    assert_eq!(process.mutex_create(false), 1);
    assert_eq!(process.semaphore_create(3), 0);
    assert_eq!(process.condvar_create(), 0);
    assert_eq!(process.condvar_create(), 1);
    assert_eq!(process.mutex_create(true), 2);
    // a mutex is a resource with one unit, a semaphore one with its permits
    assert_eq!(process.inner.get_mutex_res_id(0), 0);
    assert_eq!(process.inner.get_mutex_res_id(1), 1);
    assert_eq!(process.inner.get_semaphore_res_id(0), 2);
    assert_eq!(process.inner.get_mutex_res_id(2), 3);
    assert_eq!(process.inner.available_list, vec![1, 1, 3, 1]);
    assert!(process.mutex_list[0].as_ref().unwrap().is_blocking());
    assert!(!process.mutex_list[1].as_ref().unwrap().is_blocking());
    assert!(!process.mutex_list[0].as_ref().unwrap().is_locked());
    assert_eq!(process.semaphore_list[0].as_ref().unwrap().inner.count, 3);
    assert!(process.condvar_list[1].as_ref().unwrap().inner.wait_queue.is_empty());

    // a freed slot is used again, and its id keeps its resource
    process.mutex_list[1] = None;
    process.condvar_list[0] = None;
    assert_eq!(process.mutex_create(true), 1);
    assert_eq!(process.condvar_create(), 0);
    assert_eq!(process.mutex_list.len(), 3);
    assert_eq!(process.condvar_list.len(), 2);
    assert!(process.mutex_list[1].as_ref().unwrap().is_blocking());
    assert_eq!(process.inner.get_mutex_res_id(1), 1);
    assert_eq!(process.inner.available_list, vec![1, 1, 3, 1]);
    assert_eq!(process.inner.mutex_id2res_id.len(), 3);
}

#[test]
fn primitives_of_a_process_work_on_its_ledger() {
    let mut process = ProcessControlBlock::new(1, 0);
    process.inner.create_thread(0);
    let id = process.mutex_create(true);
    let sem = process.semaphore_create(2);
    let mutex = process.mutex_list[id].as_mut().unwrap();
    assert_eq!(mutex.lock(&mut process.inner, 0, id), LockResult::Acquired);
    assert_eq!(mutex.lock(&mut process.inner, 1, id), LockResult::Blocked);
    let semaphore = process.semaphore_list[sem].as_mut().unwrap();
    assert_eq!(semaphore.down(&mut process.inner, 1, sem), LockResult::Acquired);
    assert_eq!(process.inner.allocation_matrix, vec![vec![1, 0], vec![0, 1]]);
    assert_eq!(process.inner.need_matrix, vec![vec![0, 0], vec![1, 0]]);
    assert_eq!(process.inner.available_list, vec![0, 1]);
}
