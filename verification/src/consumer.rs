use std::cell::Cell;
use std::marker::PhantomData;
use std::sync::Arc;
use vstd::prelude::*;

use crate::buffer::Buffer;
use crate::lock::Log;
use crate::shared::{Locked, PopEnd, Shared};
use crate::waiting;

verus! {

/// One call on the handle: it holds the turns that were taken for it.
#[verifier::reject_recursive_types(T)]
struct ConsumerCall<T> {
    turns: Ghost<Seq<(Locked<T>, Locked<T>)>>,
}

impl<T> Log<Locked<T>> for ConsumerCall<T> {
    closed spec fn turns(&self) -> Seq<(Locked<T>, Locked<T>)> {
        self.turns@
    }

    fn note(&mut self, before: Ghost<Locked<T>>, after: Ghost<Locked<T>>) {
        self.turns = Ghost(self.turns@.push((before@, after@)));
    }
}

impl<T> ConsumerCall<T> {
    /// A call that took no turns yet.
    fn new() -> (call: Self)
        ensures
            call.turns().len() == 0,
    {
        ConsumerCall { turns: Ghost(Seq::empty()) }
    }
}

/// A handle to the queue which allows taking values off it.
///
/// The handle can be sent to another thread. It cannot be shared between threads: each end of the
/// queue belongs to one thread at a time.
#[verifier::reject_recursive_types(T)]
pub struct Consumer<T> {
    end: PopEnd<T>,
    _marker: PhantomData<Cell<T>>,
}

impl<T> Consumer<T> {
    /// The part of the queue that its two handles share.
    pub closed spec fn shared(self) -> Arc<Shared<T>> {
        self.end.shared()
    }

    /// The buffer of the queue, as it was when the queue was made.
    pub open spec fn first(self) -> Buffer<T> {
        self.shared().first()
    }

    /// The capacity of the queue.
    pub open spec fn bound(self) -> nat {
        self.shared().bound()
    }

    /// One of the turns at this queue, of either handle, finds the buffer as `before` and leaves it
    /// as `after`.
    pub open spec fn turns(self, before: Buffer<T>, after: Buffer<T>) -> bool {
        self.shared().turns(before, after)
    }

    /// At some time, the buffer of this queue is as `buffer`.
    pub open spec fn keeps(self, buffer: Buffer<T>) -> bool {
        self.shared().keeps(buffer)
    }

    pub(crate) fn new(end: PopEnd<T>) -> (consumer: Self)
        ensures
            consumer.shared() == end.shared(),
    {
        Consumer { end, _marker: PhantomData }
    }

    /// Pops a value off the queue, waiting for one.
    ///
    /// If the queue holds values, this executes immediately. If it is empty, the waiting strategy
    /// is a simple spin-wait: `try_pop` is repeated until a value is available, `attempts` times
    /// at most. After that many attempts the answer is `None`; a caller that wants to wait longer
    /// calls again. With no attempts, nothing is tried and the answer is `None`.
    pub fn pop(&self, attempts: usize) -> (popped: Option<T>)
        ensures
            attempts == 0 ==> popped == None::<T>,
            self.bound() == 0 ==> popped == None::<T>,
            exists|replies: Seq<Option<T>>| #[trigger]
                waiting::is_wait(replies, attempts as nat, None, popped) && (forall|i: int|
                    0 <= i < replies.len() ==> self.shared().answers_pop(#[trigger] replies[i])),
            self.shared().answers_pop_wait(attempts as nat, popped),
    {
        let mut call = ConsumerCall::new();
        self.end.pops().pop(attempts, &mut call)
    }

    /// Attempts to pop a value off the queue.
    ///
    /// This method does not wait for a value. If the queue is empty, the answer is `None`. If there is a
    /// value available, the answer is `Some(v)`, where `v` is the value popped off the queue.
    pub fn try_pop(&self) -> (popped: Option<T>)
        ensures
            self.bound() == 0 ==> popped == None::<T>,
            popped is Some ==> exists|before: Buffer<T>, after: Buffer<T>| #[trigger]
                before.pop_step(after, popped) && before.bound() == self.bound()
                    && self.keeps(before) && self.keeps(after),
            self.shared().answers_pop(popped),
    {
        let mut call = ConsumerCall::new();
        self.end.pops().try_pop(&mut call)
    }

    /// Attempts to pop (and discard) at most `n` values off the queue, and returns how many were
    /// skipped.
    ///
    /// *WARNING:* The values that are skipped are leaked: their destructors are not called. This
    /// is meant for queues of values that need no destructor.
    ///
    /// The lock on the queue is held for as many steps as values are skipped.
    pub fn skip_n(&self, n: usize) -> (skipped: usize)
        ensures
            skipped <= n,
            skipped <= self.bound(),
            self.shared().answers_skip(n as nat, skipped as nat),
    {
        let mut call = ConsumerCall::new();
        self.end.skips().skip_n(n, &mut call)
    }

    /// Returns the total capacity of this queue.
    ///
    /// This is the number of values in the queue when it is full. It does not represent the
    /// current usage. For that, call `size`.
    pub fn capacity(&self) -> (capacity: usize)
        ensures
            capacity == self.bound(),
    {
        self.end.capacity()
    }

    /// Returns the current size of the queue, from 0 to `capacity` inclusive.
    pub fn size(&self) -> (size: usize)
        ensures
            size <= self.bound(),
            self.shared().shows_size(size as nat),
    {
        let mut call = ConsumerCall::new();
        self.end.size(&mut call)
    }
}

} // verus!
