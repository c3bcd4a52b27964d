//! How the calls on the two handles of a queue relate, told by what they were asked and what they
//! answered.
//!
//! Whatever a handle does to the queue is a turn, and the turns of the two handles have an order.
//! Where the turns of some calls follow each other directly, nothing else was done to the queue
//! meanwhile: that is how it is where one handle is idle, or where the two take turns in a known
//! order. Then what each call answers follows from what the calls before it were asked and
//! answered.
use vstd::prelude::*;

use crate::buffer::Buffer;
use crate::model::Operation;
use crate::producer::Producer;
use crate::shared::Locked;

verus! {

/// One call, with what it was asked and what it answered.
pub enum Call<T> {
    /// An attempt to push the value, answered with nothing where it was taken in and with the value
    /// where it was refused.
    Push(T, Option<T>),
    /// An attempt to pop, answered with the value that was popped, if there was one.
    Pop(Option<T>),
    /// Skipping at most so many values, answered with how many were skipped.
    Skip(nat, nat),
    /// Asking for the size, answered with it.
    Look(nat),
}

/// A turn at the queue of `producer` that finds its buffer as `before` and leaves it as `after` is
/// that call.
pub open spec fn is_turn<T>(
    producer: Producer<T>,
    before: Buffer<T>,
    after: Buffer<T>,
    call: Call<T>,
) -> bool {
    match call {
        Call::Push(v, refused) => producer.shared().is_push_turn(before, after, v, refused),
        Call::Pop(popped) => producer.shared().is_pop_turn(before, after, popped),
        Call::Skip(n, skipped) => producer.shared().is_skip_turn(before, after, n, skipped),
        Call::Look(size) => producer.shared().is_look_turn(before, after, size),
    }
}

/// Those calls are turns that follow each other directly, from the first of the buffers to the last
/// one: each turn finds the buffer as the one before it left it.
pub open spec fn are_turns<T>(
    producer: Producer<T>,
    buffers: Seq<Buffer<T>>,
    calls: Seq<Call<T>>,
) -> bool {
    &&& buffers.len() == calls.len() + 1
    &&& buffers[0].wf()
    &&& buffers[0].bound() == producer.bound()
    &&& forall|i: int|
        0 <= i < calls.len() ==> is_turn(producer, buffers[i], buffers[i + 1], #[trigger] calls[i])
}

/// The values that the calls were asked to push and did not hand back, in that order.
pub open spec fn accepted<T>(calls: Seq<Call<T>>) -> Seq<T>
    decreases calls.len(),
{
    if calls.len() == 0 {
        Seq::empty()
    } else {
        match calls.last() {
            Call::Push(v, None) => accepted(calls.drop_last()).push(v),
            _ => accepted(calls.drop_last()),
        }
    }
}

/// The values that the calls answered a pop with, in that order.
pub open spec fn delivered<T>(calls: Seq<Call<T>>) -> Seq<T>
    decreases calls.len(),
{
    if calls.len() == 0 {
        Seq::empty()
    } else {
        match calls.last() {
            Call::Pop(Some(v)) => delivered(calls.drop_last()).push(v),
            _ => delivered(calls.drop_last()),
        }
    }
}

/// How many values the calls answered to have skipped.
pub open spec fn skipped<T>(calls: Seq<Call<T>>) -> nat
    decreases calls.len(),
{
    if calls.len() == 0 {
        0
    } else {
        match calls.last() {
            Call::Skip(_, n) => skipped(calls.drop_last()) + n,
            _ => skipped(calls.drop_last()),
        }
    }
}

/// How many values the calls took out of the queue, by their answers.
pub open spec fn gone<T>(calls: Seq<Call<T>>) -> int {
    (delivered(calls).len() + skipped(calls)) as int
}

/// What the calls asked to be done to the queue. To look is not to do anything.
pub open spec fn requests<T>(calls: Seq<Call<T>>) -> Seq<Operation<T>>
    decreases calls.len(),
{
    if calls.len() == 0 {
        Seq::empty()
    } else {
        let before = requests(calls.drop_last());
        match calls.last() {
            Call::Push(v, _) => before.push(Operation::Push(v)),
            Call::Pop(_) => before.push(Operation::Pop),
            Call::Skip(n, _) => before.push(Operation::Skip(n)),
            Call::Look(_) => before,
        }
    }
}

/// Nothing is done to the queue but what the calls ask for, and nothing is lost: the queue holds
/// what it held and what the calls accepted, in that order, without as many values from the front
/// as the calls delivered and skipped. What was done to it is what was done before, followed by
/// what the calls asked for.
pub proof fn law_only_what_is_asked_for<T>(
    producer: Producer<T>,
    buffers: Seq<Buffer<T>>,
    calls: Seq<Call<T>>,
)
    requires
        are_turns(producer, buffers, calls),
    ensures
        buffers.last().wf(),
        buffers.last().bound() == producer.bound(),
        gone(calls) <= buffers[0]@.len() + accepted(calls).len(),
        buffers.last()@ == (buffers[0]@ + accepted(calls)).skip(gone(calls)),
        buffers.last().history() == buffers[0].history() + requests(calls),
    decreases calls.len(),
{
    let start = buffers[0];
    if calls.len() > 0 {
        let earlier = calls.drop_last();
        law_only_what_is_asked_for(producer, buffers.drop_last(), earlier);
        assert(is_turn(producer, buffers.drop_last().last(), buffers.last(), calls.last()));
        match calls.last() {
            Call::Push(v, None) => {
                assert(start@ + accepted(calls) =~= (start@ + accepted(earlier)).push(v));
            },
            _ => {},
        }
        assert(buffers.last()@ =~= (start@ + accepted(calls)).skip(gone(calls)));
        assert(buffers.last().history() =~= start.history() + requests(calls));
    } else {
        assert(start@ =~= (start@ + accepted(calls)).skip(0));
        assert(start.history() =~= start.history() + requests(calls));
    }
}

/// What a call answers follows from what the calls before it were asked and answered: a push is
/// refused where the queue is full; a pop gives the oldest of the values that came and did not
/// leave, if there is one; a skip takes as many of them as were asked for, or all; a look counts
/// them.
pub proof fn law_answers_follow_from_answers<T>(
    producer: Producer<T>,
    buffers: Seq<Buffer<T>>,
    calls: Seq<Call<T>>,
    after: Buffer<T>,
    next: Call<T>,
)
    requires
        are_turns(producer, buffers, calls),
        is_turn(producer, buffers.last(), after, next),
    ensures
        ({
            let came = buffers[0]@ + accepted(calls);
            let size = came.len() - gone(calls);
            &&& 0 <= size <= producer.bound()
            &&& match next {
                Call::Push(v, refused) => refused == (if size < producer.bound() {
                    None
                } else {
                    Some(v)
                }),
                Call::Pop(popped) => popped == (if size > 0 {
                    Some(came[gone(calls)])
                } else {
                    None
                }),
                Call::Skip(n, skipped) => skipped == (if n < size {
                    n as int
                } else {
                    size
                }),
                Call::Look(seen) => seen == size,
            }
        }),
{
    law_only_what_is_asked_for(producer, buffers, calls);
    buffers.last().law_within_capacity();
}

/// What is popped is what was pushed: where no value was skipped, the values that were delivered,
/// followed by those that are left, are those that were there, followed by those that were
/// accepted, all in order and none left out. So on a queue that was empty at first, the values
/// that were delivered are the first of those that were accepted.
pub proof fn law_delivers_what_was_accepted<T>(
    producer: Producer<T>,
    buffers: Seq<Buffer<T>>,
    calls: Seq<Call<T>>,
)
    requires
        are_turns(producer, buffers, calls),
        skipped(calls) == 0,
    ensures
        delivered(calls) + buffers.last()@ == buffers[0]@ + accepted(calls),
    decreases calls.len(),
{
    if calls.len() > 0 {
        let earlier = calls.drop_last();
        law_delivers_what_was_accepted(producer, buffers.drop_last(), earlier);
        assert(is_turn(producer, buffers.drop_last().last(), buffers.last(), calls.last()));
        law_only_what_is_asked_for(producer, buffers.drop_last(), earlier);
        let there = delivered(earlier) + buffers.drop_last().last()@;
        match calls.last() {
            Call::Push(v, None) => {
                assert(delivered(calls) + buffers.last()@ =~= there.push(v));
                assert(buffers[0]@ + accepted(calls) =~= (buffers[0]@ + accepted(earlier)).push(v));
            },
            _ => {
                assert(delivered(calls) + buffers.last()@ =~= there);
            },
        }
    } else {
        assert(delivered(calls) + buffers.last()@ =~= buffers[0]@ + accepted(calls));
    }
}

/// To look is not to do anything: what was a turn before and a turn after a look is, without the
/// look, a turn that follows the other directly. Two looks with nothing in between see the same.
pub proof fn law_looking_changes_nothing<T>(
    producer: Producer<T>,
    before: Buffer<T>,
    after: Buffer<T>,
    size: nat,
    later: Buffer<T>,
    next: Call<T>,
)
    requires
        is_turn(producer, before, after, Call::Look(size)),
    ensures
        after == before,
        after.history() == before.history(),
        is_turn(producer, after, later, next) <==> is_turn(producer, before, later, next),
        is_turn(producer, after, later, next) ==> match next {
            Call::Look(again) => again == size,
            _ => true,
        },
{
}

/// The size that is seen after a call is the one that was seen before it, and one more where the
/// call accepted a value, and as many less as it delivered and skipped.
pub proof fn law_sizes_add_up<T>(
    producer: Producer<T>,
    buffers: Seq<Buffer<T>>,
    calls: Seq<Call<T>>,
    size: nat,
    later_size: nat,
)
    requires
        are_turns(producer, buffers, calls),
        is_turn(producer, buffers[0], buffers[0], Call::Look(size)),
        is_turn(producer, buffers.last(), buffers.last(), Call::Look(later_size)),
    ensures
        later_size == size + accepted(calls).len() - delivered(calls).len() - skipped(calls),
{
    law_only_what_is_asked_for(producer, buffers, calls);
}

/// A producer never takes a value out of the queue, and never changes one that is in it: whatever it
/// calls, the queue begins with what was in it, and its front is where it was.
pub proof fn law_producer_only_adds<T>(
    producer: Producer<T>,
    buffers: Seq<Buffer<T>>,
    calls: Seq<Call<T>>,
)
    requires
        are_turns(producer, buffers, calls),
        forall|i: int| 0 <= i < calls.len() ==> #[trigger] calls[i] is Push || calls[i] is Look,
    ensures
        buffers.last()@ == buffers[0]@ + accepted(calls),
        buffers.last().head() == buffers[0].head(),
    decreases calls.len(),
{
    if calls.len() > 0 {
        let earlier = calls.drop_last();
        law_producer_only_adds(producer, buffers.drop_last(), earlier);
        assert(calls.last() == calls[calls.len() - 1]);
        assert(is_turn(producer, buffers.drop_last().last(), buffers.last(), calls.last()));
        law_only_what_is_asked_for(producer, buffers.drop_last(), earlier);
    }
    assert(buffers.last()@ =~= buffers[0]@ + accepted(calls));
}

/// A consumer never adds a value to the queue: whatever it calls, what is left is what was in the
/// queue, without as many values from the front as it was given or told to have skipped.
pub proof fn law_consumer_only_takes<T>(
    producer: Producer<T>,
    buffers: Seq<Buffer<T>>,
    calls: Seq<Call<T>>,
)
    requires
        are_turns(producer, buffers, calls),
        forall|i: int| 0 <= i < calls.len() ==> !(#[trigger] calls[i] is Push),
    ensures
        gone(calls) <= buffers[0]@.len(),
        buffers.last()@ == buffers[0]@.skip(gone(calls)),
        buffers.last().tail() == buffers[0].tail(),
    decreases calls.len(),
{
    if calls.len() > 0 {
        let earlier = calls.drop_last();
        law_consumer_only_takes(producer, buffers.drop_last(), earlier);
        assert(calls.last() == calls[calls.len() - 1]);
        assert(is_turn(producer, buffers.drop_last().last(), buffers.last(), calls.last()));
        law_only_what_is_asked_for(producer, buffers.drop_last(), earlier);
    }
    assert(buffers.last()@ =~= buffers[0]@.skip(gone(calls)));
}

/// A skip takes values off the front only, and answers with how many it took. Skipping twice is as
/// skipping once for the sum: no more values are taken than were asked for, and fewer only where
/// the queue is empty in the end.
pub proof fn law_skips_add_up<T>(
    producer: Producer<T>,
    buffers: Seq<Buffer<T>>,
    n: nat,
    skipped: nat,
    m: nat,
    also_skipped: nat,
)
    requires
        are_turns(producer, buffers, seq![Call::Skip(n, skipped), Call::Skip(m, also_skipped)]),
    ensures
        buffers[0]@ == buffers[0]@.take(skipped as int) + buffers[1]@,
        buffers[1]@.len() + skipped == buffers[0]@.len(),
        skipped <= n,
        skipped < n ==> buffers[1]@.len() == 0,
        skipped + also_skipped <= n + m,
        skipped + also_skipped < n + m ==> buffers[2]@.len() == 0,
        buffers[2]@ == buffers[0]@.skip((skipped + also_skipped) as int),
{
    let calls = seq![Call::<T>::Skip(n, skipped), Call::Skip(m, also_skipped)];
    assert(is_turn(producer, buffers[0], buffers[1], calls[0]));
    assert(is_turn(producer, buffers[1], buffers[2], calls[1]));
    assert(buffers[0]@ =~= buffers[0]@.take(skipped as int) + buffers[1]@);
    assert(buffers[2]@ =~= buffers[0]@.skip((skipped + also_skipped) as int));
}

/// The turns follow each other directly: each finds the buffer as the one before it left it.
pub open spec fn are_direct<T>(turns: Seq<(Locked<T>, Locked<T>)>) -> bool {
    forall|i: int, j: int|
        0 <= i < turns.len() && j == i + 1 && j < turns.len() ==> (#[trigger] turns[i]).1 == (
        #[trigger] turns[j]).0
}

/// Where the consumer is idle, waiting does not help, and pushing is all that a wait to push does:
/// it takes one attempt on a queue that has room, and the value is then the last in the queue; on
/// a full queue it takes all attempts, the value comes back, and the queue is as it was. Its front
/// stays where it is.
pub proof fn law_push_while_consumer_is_idle<T>(
    producer: Producer<T>,
    turns: Seq<(Locked<T>, Locked<T>)>,
    v: T,
    attempts: nat,
    refused: Option<T>,
)
    requires
        producer.shared().is_push_wait(turns, v, attempts, refused),
        are_direct(turns),
        turns.len() > 0,
        turns[0].0.buffer().bound() == producer.bound(),
    ensures
        ({
            let before = turns[0].0.buffer();
            let after = turns.last().1.buffer();
            &&& before@.len() < producer.bound() ==> turns.len() == 1 && refused == None::<T>
                && after@ == before@.push(v)
            &&& before@.len() >= producer.bound() ==> turns.len() == attempts && refused == Some(v)
                && after@ == before@
            &&& after.head() == before.head()
            &&& after.history() == before.history() + Seq::new(
                turns.len(),
                |i: int| Operation::Push(v),
            )
        }),
{
    lemma_push_attempts(producer, turns, v, attempts, refused, turns.len());
}

/// The queue after the first `n` attempts of a wait to push.
proof fn lemma_push_attempts<T>(
    producer: Producer<T>,
    turns: Seq<(Locked<T>, Locked<T>)>,
    v: T,
    attempts: nat,
    refused: Option<T>,
    n: nat,
)
    requires
        producer.shared().is_push_wait(turns, v, attempts, refused),
        are_direct(turns),
        turns[0].0.buffer().bound() == producer.bound(),
        0 < n <= turns.len(),
    ensures
        ({
            let before = turns[0].0.buffer();
            let after = turns[n - 1].1.buffer();
            &&& after.bound() == producer.bound()
            &&& before@.len() < producer.bound() ==> turns.len() == 1 && refused == None::<T>
                && after@ == before@.push(v)
            &&& before@.len() >= producer.bound() ==> (n == turns.len() ==> refused == Some(v))
                && after@ == before@
            &&& after.head() == before.head()
            &&& after.history() == before.history() + Seq::new(n, |i: int| Operation::Push(v))
        }),
    decreases n,
{
    let before = turns[0].0.buffer();
    let last = turns[n - 1];
    assert(producer.shared().is_push_turn(
        turns[0].0.buffer(),
        turns[0].1.buffer(),
        v,
        if turns.len() > 1 {
            Some(v)
        } else {
            refused
        },
    ));
    if n > 1 {
        let fewer = (n - 1) as nat;
        lemma_push_attempts(producer, turns, v, attempts, refused, fewer);
        assert(turns[n - 2].1 == last.0);
        assert(Seq::new(n, |i: int| Operation::Push(v)) =~= Seq::new(
            fewer,
            |i: int| Operation::Push(v),
        ).push(Operation::Push(v)));
    }
    assert(last.1.buffer().history() =~= before.history() + Seq::new(
        n,
        |i: int| Operation::Push(v),
    ));
}

/// Where the producer is idle, waiting does not help, and popping is all that a wait to pop does: it
/// takes one attempt on a queue that holds values, and gives the one that was at the front when the
/// wait began; on an empty queue it takes all attempts, gives nothing, and the queue stays empty.
pub proof fn law_pop_while_producer_is_idle<T>(
    producer: Producer<T>,
    turns: Seq<(Locked<T>, Locked<T>)>,
    attempts: nat,
    popped: Option<T>,
)
    requires
        producer.shared().is_pop_wait(turns, attempts, popped),
        are_direct(turns),
        turns.len() > 0,
        turns[0].0.buffer().bound() == producer.bound(),
    ensures
        ({
            let before = turns[0].0.buffer();
            let after = turns.last().1.buffer();
            &&& before@.len() > 0 ==> turns.len() == 1 && popped == Some(before@[0]) && before@
                == seq![before@[0]] + after@
            &&& before@.len() == 0 ==> turns.len() == attempts && popped == None::<T> && after@
                == before@
            &&& after.tail() == before.tail()
            &&& after.history() == before.history() + Seq::new(
                turns.len(),
                |i: int| Operation::<T>::Pop,
            )
        }),
{
    lemma_pop_attempts(producer, turns, attempts, popped, turns.len());
}

/// The queue after the first `n` attempts of a wait to pop.
proof fn lemma_pop_attempts<T>(
    producer: Producer<T>,
    turns: Seq<(Locked<T>, Locked<T>)>,
    attempts: nat,
    popped: Option<T>,
    n: nat,
)
    requires
        producer.shared().is_pop_wait(turns, attempts, popped),
        are_direct(turns),
        turns[0].0.buffer().bound() == producer.bound(),
        0 < n <= turns.len(),
    ensures
        ({
            let before = turns[0].0.buffer();
            let after = turns[n - 1].1.buffer();
            &&& after.bound() == producer.bound()
            &&& before@.len() > 0 ==> turns.len() == 1 && popped == Some(before@[0]) && before@
                == seq![before@[0]] + after@
            &&& before@.len() == 0 ==> (n == turns.len() ==> popped == None::<T>) && after@
                == before@
            &&& after.tail() == before.tail()
            &&& after.history() == before.history() + Seq::new(n, |i: int| Operation::<T>::Pop)
        }),
    decreases n,
{
    let before = turns[0].0.buffer();
    let last = turns[n - 1];
    assert(producer.shared().is_pop_turn(
        turns[0].0.buffer(),
        turns[0].1.buffer(),
        if turns.len() > 1 {
            None
        } else {
            popped
        },
    ));
    if n > 1 {
        let fewer = (n - 1) as nat;
        lemma_pop_attempts(producer, turns, attempts, popped, fewer);
        assert(turns[n - 2].1 == last.0);
        assert(Seq::new(n, |i: int| Operation::<T>::Pop) =~= Seq::new(
            fewer,
            |i: int| Operation::<T>::Pop,
        ).push(Operation::Pop));
    } else if before@.len() > 0 {
        assert(before@ =~= seq![before@[0]] + last.1.buffer()@);
    }
    assert(last.1.buffer().history() =~= before.history() + Seq::new(
        n,
        |i: int| Operation::<T>::Pop,
    ));
}

} // verus!
