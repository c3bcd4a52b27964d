//! What holds of the queue as a whole, over any number of operations.
use vstd::prelude::*;

use crate::model;
use crate::position;

verus! {

/// First in, first out: whatever the two handles did, in whatever order, the values that left the
/// queue, followed by those that are still in it, are the values that were pushed, in the order in
/// which they were pushed. None is lost, none comes twice and none overtakes another.
pub proof fn law_first_in_first_out<T>(capacity: nat, operations: Seq<model::Operation<T>>)
    ensures
        model::run(capacity, operations).accepted == model::run(capacity, operations).removed + model::run(
            capacity,
            operations,
        ).contents,
    decreases operations.len(),
{
    if operations.len() > 0 {
        let after = model::run(capacity, operations);
        law_first_in_first_out(capacity, operations.drop_last());
        assert(after.accepted =~= after.removed + after.contents);
    } else {
        assert(Seq::<T>::empty() =~= Seq::<T>::empty() + Seq::<T>::empty());
    }
}

/// The queue never holds more values than its capacity.
pub proof fn law_never_over_capacity<T>(capacity: nat, operations: Seq<model::Operation<T>>)
    ensures
        model::run(capacity, operations).contents.len() <= capacity,
    decreases operations.len(),
{
    if operations.len() > 0 {
        law_never_over_capacity(capacity, operations.drop_last());
    }
}

/// A push is refused where the queue is full, and only there. A refused value comes back as it was,
/// and the queue stays as it was. A value that is taken in makes the queue longer by one.
pub proof fn law_only_a_full_queue_refuses<T>(queue: Seq<T>, capacity: nat, v: T)
    ensures
        model::push_reply(queue, capacity, v) is Some <==> queue.len() >= capacity,
        model::push_reply(queue, capacity, v) matches Some(back) ==> back == v
            && model::after_push(queue, capacity, v) == queue,
        model::push_reply(queue, capacity, v) is None ==> model::after_push(queue, capacity, v).len()
            == queue.len() + 1,
{
}

/// A pop gives nothing where the queue is empty, and only there. An empty queue stays empty. A
/// value that is popped makes the queue shorter by one.
pub proof fn law_only_an_empty_queue_gives_nothing<T>(queue: Seq<T>)
    ensures
        model::pop_reply(queue) is None <==> queue.len() == 0,
        model::pop_reply(queue) is None ==> model::after_pop(queue) == queue,
        model::pop_reply(queue) matches Some(front) ==> queue == seq![front] + model::after_pop(
            queue,
        ),
{
    if queue.len() > 0 {
        assert(queue =~= seq![queue[0]] + queue.skip(1));
    }
}

/// The queue after attempts to push all the given values, in turn.
pub open spec fn after_pushes<T>(queue: Seq<T>, capacity: nat, values: Seq<T>) -> Seq<T>
    decreases values.len(),
{
    if values.len() == 0 {
        queue
    } else {
        model::after_push(
            after_pushes(queue, capacity, values.drop_last()),
            capacity,
            values.last(),
        )
    }
}

/// The free space, capacity less size, is the number of values that can be pushed before the queue
/// is full: that many values are all taken in, and the next one comes back.
pub proof fn law_free_space_is_what_fits<T>(queue: Seq<T>, capacity: nat, values: Seq<T>, v: T)
    requires
        queue.len() <= capacity,
        values.len() <= capacity - queue.len(),
    ensures
        after_pushes(queue, capacity, values) == queue + values,
        model::push_reply(queue + values, capacity, v) == (if values.len() == capacity
            - queue.len() {
            Some(v)
        } else {
            None
        }),
    decreases values.len(),
{
    if values.len() > 0 {
        law_free_space_is_what_fits(queue, capacity, values.drop_last(), v);
        assert((queue + values.drop_last()).push(values.last()) =~= queue + values);
    } else {
        assert(queue + values =~= queue);
    }
}

/// A value that was pushed is popped right after those that were in the queue before it.
pub proof fn law_pushed_value_comes_out_last<T>(queue: Seq<T>, capacity: nat, v: T)
    requires
        queue.len() < capacity,
    ensures
        model::pop_reply(model::after_skip(model::after_push(queue, capacity, v), queue.len()))
            == Some(v),
        model::after_pop(model::after_skip(model::after_push(queue, capacity, v), queue.len()))
            == Seq::<T>::empty(),
{
    let pushed = model::after_push(queue, capacity, v);
    assert(pushed.skip(queue.len() as int) =~= seq![v]);
    assert(seq![v].skip(1) =~= Seq::<T>::empty());
}

/// The two ends do not disturb each other: on a queue that is neither full nor empty, a push and a
/// pop give the same answers and leave the same queue in either order.
pub proof fn law_push_and_pop_commute<T>(queue: Seq<T>, capacity: nat, v: T)
    requires
        0 < queue.len() < capacity,
    ensures
        model::after_pop(model::after_push(queue, capacity, v)) == model::after_push(
            model::after_pop(queue),
            capacity,
            v,
        ),
        model::pop_reply(model::after_push(queue, capacity, v)) == model::pop_reply(queue),
        model::push_reply(model::after_pop(queue), capacity, v) == model::push_reply(
            queue,
            capacity,
            v,
        ),
{
    assert(queue.push(v).skip(1) =~= queue.skip(1).push(v));
}

/// The queue after `n` attempts to pop.
pub open spec fn after_pops<T>(queue: Seq<T>, n: nat) -> Seq<T>
    decreases n,
{
    if n == 0 {
        queue
    } else {
        model::after_pop(after_pops(queue, (n - 1) as nat))
    }
}

/// How many of `n` attempts to pop give a value.
pub open spec fn pops_that_give<T>(queue: Seq<T>, n: nat) -> nat
    decreases n,
{
    if n == 0 {
        0
    } else {
        let before = (n - 1) as nat;
        pops_that_give(queue, before) + if model::pop_reply(after_pops(queue, before)) is Some {
            1nat
        } else {
            0nat
        }
    }
}

/// Skipping at most `n` values is as `n` attempts to pop: it leaves the same queue, and skips as
/// many values as those attempts would give.
pub proof fn law_skipping_is_popping<T>(queue: Seq<T>, n: nat)
    ensures
        model::after_skip(queue, n) == after_pops(queue, n),
        model::skip_count(queue, n) == pops_that_give(queue, n),
    decreases n,
{
    if n > 0 {
        law_skipping_is_popping(queue, (n - 1) as nat);
    }
    assert(model::after_skip(queue, n) =~= after_pops(queue, n));
}

/// Attempts to pop give the values of the queue one by one, from the front to the back, and then
/// nothing.
pub proof fn law_pops_give_the_queue_in_order<T>(queue: Seq<T>, i: nat)
    ensures
        model::pop_reply(after_pops(queue, i)) == (if i < queue.len() {
            Some(queue[i as int])
        } else {
            None
        }),
{
    law_skipping_is_popping(queue, i);
}

/// Values that were pushed are left to the consumer when the producer does nothing more, as when
/// its handle is dropped: after any operations, `n` further attempts to pop, with none to push in
/// between, give the first `n` of the values that are left, or all of them where there are fewer,
/// in order, and leave the others.
pub proof fn law_consumer_is_left_with_the_queue<T>(
    capacity: nat,
    operations: Seq<model::Operation<T>>,
    n: nat,
)
    ensures
        ({
            let left = model::run(capacity, operations);
            let after = model::run(
                capacity,
                operations + Seq::new(n, |i: int| model::Operation::<T>::Pop),
            );
            let given = model::skip_count(left.contents, n) as int;
            &&& after.accepted == left.accepted
            &&& after.removed == left.removed + left.contents.take(given)
            &&& after.contents == left.contents.skip(given)
        }),
    decreases n,
{
    let left = model::run(capacity, operations);
    let pops = Seq::new(n, |i: int| model::Operation::<T>::Pop);
    let after = model::run(capacity, operations + pops);
    let given = model::skip_count(left.contents, n) as int;
    if n > 0 {
        let fewer = (n - 1) as nat;
        let fewer_pops = Seq::new(fewer, |i: int| model::Operation::<T>::Pop);
        law_consumer_is_left_with_the_queue(capacity, operations, fewer);
        assert(operations + pops =~= (operations + fewer_pops).push(model::Operation::Pop));
        model::lemma_run_push(capacity, operations + fewer_pops, model::Operation::Pop);
    } else {
        assert(operations + pops =~= operations);
    }
    assert(after.removed =~= left.removed + left.contents.take(given));
    assert(after.contents =~= left.contents.skip(given));
}

/// Two queues after operations on the one (`true`) or the other (`false`).
pub open spec fn run_both<T>(
    capacities: (nat, nat),
    operations: Seq<(bool, model::Operation<T>)>,
) -> (model::History<T>, model::History<T>)
    decreases operations.len(),
{
    if operations.len() == 0 {
        (model::run(capacities.0, Seq::empty()), model::run(capacities.1, Seq::empty()))
    } else {
        let before = run_both(capacities, operations.drop_last());
        let (on_first, operation) = operations.last();
        if on_first {
            (model::step(before.0, capacities.0, operation), before.1)
        } else {
            (before.0, model::step(before.1, capacities.1, operation))
        }
    }
}

/// The operations on one of two queues.
pub open spec fn operations_on<T>(
    operations: Seq<(bool, model::Operation<T>)>,
    first: bool,
) -> Seq<model::Operation<T>>
    decreases operations.len(),
{
    if operations.len() == 0 {
        Seq::empty()
    } else {
        let before = operations_on(operations.drop_last(), first);
        if operations.last().0 == first {
            before.push(operations.last().1)
        } else {
            before
        }
    }
}

/// Two queues do not touch each other: however the operations on them are interleaved, each is as
/// the operations on it alone leave it.
pub proof fn law_queues_are_apart<T>(
    capacities: (nat, nat),
    operations: Seq<(bool, model::Operation<T>)>,
)
    ensures
        run_both(capacities, operations) == (
            model::run(capacities.0, operations_on(operations, true)),
            model::run(capacities.1, operations_on(operations, false)),
        ),
    decreases operations.len(),
{
    if operations.len() > 0 {
        let before = operations.drop_last();
        let (on_first, operation) = operations.last();
        law_queues_are_apart(capacities, before);
        model::lemma_run_push(capacities.0, operations_on(before, true), operation);
        model::lemma_run_push(capacities.1, operations_on(before, false), operation);
    }
}

/// A producer that sees room writes to a slot that holds no value of the queue, even where the
/// head that it goes by is an old one: `seen_head` is any position that the head had before, and
/// `head` is where the consumer has it by now.
pub proof fn law_old_head_is_safe(
    seen_head: usize,
    head: usize,
    tail: usize,
    capacity: nat,
    size: usize,
)
    requires
        position::is_next_power_of_two(capacity, size as nat),
        position::distance(seen_head, head) <= position::distance(seen_head, tail),
        position::distance(seen_head, tail) < capacity,
    ensures
        position::distance(head, tail) < capacity,
        forall|k: int|
            0 <= k < position::distance(head, tail) ==> #[trigger] position::slot_of(
                head + k,
                size as nat,
            ) != position::slot_of(tail as int, size as nat),
{
    let n = position::distance(head, tail);
    position::lemma_ahead_by_distance(head, tail);
    position::lemma_slot_ahead(head, n, size);
    assert forall|k: int| 0 <= k < n implies #[trigger] position::slot_of(head + k, size as nat)
        != position::slot_of(tail as int, size as nat) by {
        position::lemma_slots_differ(head as int, k, n as int, size as nat);
    }
}

/// A consumer that sees a value reads a slot between the head and the tail, which the producer does
/// not write to, even where the tail that it goes by is an old one: `seen_tail` is any position
/// that the tail had since the head was where it is, and `tail` is where the producer has it by
/// now, which is about to write one more value.
pub proof fn law_old_tail_is_safe(
    head: usize,
    seen_tail: usize,
    tail: usize,
    capacity: nat,
    size: usize,
)
    requires
        position::is_next_power_of_two(capacity, size as nat),
        head != seen_tail,
        position::distance(head, seen_tail) <= position::distance(head, tail),
        position::distance(head, tail) < capacity,
    ensures
        position::distance(head, tail) > 0,
        position::slot_of(head as int, size as nat) != position::slot_of(tail as int, size as nat),
{
    law_old_head_is_safe(head, head, tail, capacity, size);
    assert(position::slot_of(head + 0, size as nat) == position::slot_of(head as int, size as nat));
}

} // verus!
