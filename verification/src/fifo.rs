//! Wait queues are first in, first out: threads are woken in the order in
//! which they were queued.

use vstd::prelude::*;
use crate::mutex::{next_waiter, rest_of_queue};

verus! {

/// The queue after the threads of `arrivals` were queued in turn.
pub open spec fn queue_after(queue: Seq<usize>, arrivals: Seq<usize>) -> Seq<usize>
    decreases arrivals.len(),
{
    if arrivals.len() == 0 {
        queue
    } else {
        queue_after(queue, arrivals.drop_last()).push(arrivals.last())
    }
}

/// The threads that the next `releases` releases wake, in turn.
pub open spec fn wake_order(queue: Seq<usize>, releases: nat) -> Seq<usize>
    decreases releases,
{
    if releases == 0 {
        Seq::empty()
    } else {
        match next_waiter(queue) {
            None => Seq::empty(),
            Some(t) => seq![t] + wake_order(rest_of_queue(queue), (releases - 1) as nat),
        }
    }
}

/// Queueing threads in turn appends them in that order.
pub proof fn lemma_queue_after(queue: Seq<usize>, arrivals: Seq<usize>)
    ensures
        queue_after(queue, arrivals) == queue + arrivals,
    decreases arrivals.len(),
{
    if arrivals.len() == 0 {
        assert(queue + arrivals =~= queue);
    } else {
        lemma_queue_after(queue, arrivals.drop_last());
        assert(queue + arrivals =~= (queue + arrivals.drop_last()).push(arrivals.last()));
    }
}

/// As many releases as threads are queued wake all of them, head first.
pub proof fn lemma_wake_order(queue: Seq<usize>)
    ensures
        wake_order(queue, queue.len()) == queue,
    decreases queue.len(),
{
    if queue.len() == 0 {
        assert(wake_order(queue, queue.len()) =~= queue);
    } else {
        lemma_wake_order(queue.drop_first());
        assert(seq![queue[0]] + queue.drop_first() =~= queue);
    }
}

/// Threads that block in the order `arrivals` at a primitive with nobody
/// waiting are woken by the following releases in exactly that order.
pub proof fn lemma_fifo(arrivals: Seq<usize>)
    ensures
        wake_order(queue_after(Seq::empty(), arrivals), arrivals.len()) == arrivals,
{
    lemma_queue_after(Seq::empty(), arrivals);
    assert(Seq::<usize>::empty() + arrivals =~= arrivals);
    lemma_wake_order(arrivals);
}

} // verus!
