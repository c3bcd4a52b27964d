//! What the queue does, told on the sequence of the values that it holds: the value at the front
//! comes first, and the queue holds no more than `capacity` values.
use vstd::prelude::*;

verus! {

/// The queue after an attempt to push `v`.
pub open spec fn after_push<T>(queue: Seq<T>, capacity: nat, v: T) -> Seq<T> {
    if queue.len() < capacity {
        queue.push(v)
    } else {
        queue
    }
}

/// The answer to an attempt to push `v`: nothing where it was taken in, the value itself where the
/// queue was full.
pub open spec fn push_reply<T>(queue: Seq<T>, capacity: nat, v: T) -> Option<T> {
    if queue.len() < capacity {
        None
    } else {
        Some(v)
    }
}

/// The queue after an attempt to pop.
pub open spec fn after_pop<T>(queue: Seq<T>) -> Seq<T> {
    if queue.len() > 0 {
        queue.skip(1)
    } else {
        queue
    }
}

/// The answer to an attempt to pop: the value at the front, if there is one.
pub open spec fn pop_reply<T>(queue: Seq<T>) -> Option<T> {
    if queue.len() > 0 {
        Some(queue[0])
    } else {
        None
    }
}

/// How many values are skipped where at most `n` are asked for.
pub open spec fn skip_count<T>(queue: Seq<T>, n: nat) -> nat {
    if n < queue.len() {
        n
    } else {
        queue.len()
    }
}

/// The queue after skipping at most `n` values.
pub open spec fn after_skip<T>(queue: Seq<T>, n: nat) -> Seq<T> {
    queue.skip(skip_count(queue, n) as int)
}

/// One operation on the queue, by either handle.
pub enum Operation<T> {
    /// An attempt to push a value.
    Push(T),
    /// An attempt to pop a value.
    Pop,
    /// Skipping at most so many values.
    Skip(nat),
}

/// A queue together with everything that ever went in and came out.
pub struct History<T> {
    /// The values that were taken in, in the order in which they were pushed.
    pub accepted: Seq<T>,
    /// The values that left the queue, popped or skipped, in the order in which they left.
    pub removed: Seq<T>,
    /// The values that are in the queue.
    pub contents: Seq<T>,
}

/// One more operation.
pub open spec fn step<T>(before: History<T>, capacity: nat, operation: Operation<T>) -> History<T> {
    let queue = before.contents;
    match operation {
        Operation::Push(v) => History {
            accepted: if push_reply(queue, capacity, v) is None {
                before.accepted.push(v)
            } else {
                before.accepted
            },
            removed: before.removed,
            contents: after_push(queue, capacity, v),
        },
        Operation::Pop => History {
            accepted: before.accepted,
            removed: match pop_reply(queue) {
                Some(v) => before.removed.push(v),
                None => before.removed,
            },
            contents: after_pop(queue),
        },
        Operation::Skip(n) => History {
            accepted: before.accepted,
            removed: before.removed + queue.take(skip_count(queue, n) as int),
            contents: after_skip(queue, n),
        },
    }
}

/// A new queue after the given operations, however those of the two handles are interleaved.
pub open spec fn run<T>(capacity: nat, operations: Seq<Operation<T>>) -> History<T>
    decreases operations.len(),
{
    if operations.len() == 0 {
        History { accepted: Seq::empty(), removed: Seq::empty(), contents: Seq::empty() }
    } else {
        step(run(capacity, operations.drop_last()), capacity, operations.last())
    }
}

/// What one more operation adds to a run.
pub proof fn lemma_run_push<T>(capacity: nat, operations: Seq<Operation<T>>, next: Operation<T>)
    ensures
        run(capacity, operations.push(next)) == step(run(capacity, operations), capacity, next),
{
    assert(operations.push(next).drop_last() =~= operations);
}

} // verus!
