use std::cell::Cell;
use std::marker::PhantomData;
use std::sync::Arc;
use vstd::prelude::*;

use crate::buffer::Buffer;
use crate::consumer::Consumer;
use crate::lock::Log;
use crate::shared::{Locked, PushEnd, Shared};
use crate::waiting;

verus! {

/// `std::cell::Cell`: named only as the parameter of a `PhantomData`, for a type that can be sent
/// to another thread but not shared between threads.
#[verifier::external_type_specification]
#[verifier::external_body]
#[verifier::reject_recursive_types(T)]
pub struct ExCell<T: ?Sized>(Cell<T>);

/// One call on the handle: it holds the turns that were taken for it.
#[verifier::reject_recursive_types(T)]
struct ProducerCall<T> {
    turns: Ghost<Seq<(Locked<T>, Locked<T>)>>,
}

impl<T> Log<Locked<T>> for ProducerCall<T> {
    closed spec fn turns(&self) -> Seq<(Locked<T>, Locked<T>)> {
        self.turns@
    }

    fn note(&mut self, before: Ghost<Locked<T>>, after: Ghost<Locked<T>>) {
        self.turns = Ghost(self.turns@.push((before@, after@)));
    }
}

impl<T> ProducerCall<T> {
    /// A call that took no turns yet.
    fn new() -> (call: Self)
        ensures
            call.turns().len() == 0,
    {
        ProducerCall { turns: Ghost(Seq::empty()) }
    }
}

/// A handle to the queue which allows adding values to it.
///
/// The handle can be sent to another thread. It cannot be shared between threads: each end of the
/// queue belongs to one thread at a time. Dropping the handle does nothing to the values in the
/// queue: they are left to the consumer.
#[verifier::reject_recursive_types(T)]
pub struct Producer<T> {
    end: PushEnd<T>,
    _marker: PhantomData<Cell<T>>,
}

impl<T> Producer<T> {
    /// The part of the queue that its two handles share.
    pub closed spec fn shared(self) -> Arc<Shared<T>> {
        self.end.shared()
    }

    /// The buffer of the queue, as it was when the queue was made.
    pub open spec fn first(self) -> Buffer<T> {
        self.shared().first()
    }

    /// The capacity of the queue.
    pub open spec fn bound(self) -> nat {
        self.shared().bound()
    }

    /// One of the turns at this queue, of either handle, finds the buffer as `before` and leaves it
    /// as `after`.
    pub open spec fn turns(self, before: Buffer<T>, after: Buffer<T>) -> bool {
        self.shared().turns(before, after)
    }

    /// At some time, the buffer of this queue is as `buffer`.
    pub open spec fn keeps(self, buffer: Buffer<T>) -> bool {
        self.shared().keeps(buffer)
    }

    /// This handle and `consumer` share one buffer.
    pub open spec fn feeds(self, consumer: Consumer<T>) -> bool {
        self.shared() == consumer.shared()
    }

    /// Handles that share one buffer are of one queue: they have the same capacity, and the buffers
    /// that the answers of the one speak of are those that the answers of the other speak of.
    pub proof fn law_handles_are_of_one_queue(self, consumer: Consumer<T>, buffer: Buffer<T>)
        requires
            self.feeds(consumer),
        ensures
            self.bound() == consumer.bound(),
            self.first() == consumer.first(),
            self.keeps(buffer) <==> consumer.keeps(buffer),
            forall|after: Buffer<T>| #[trigger]
                self.turns(buffer, after) <==> consumer.turns(buffer, after),
    {
    }

    pub(crate) fn new(end: PushEnd<T>) -> (producer: Self)
        ensures
            producer.shared() == end.shared(),
    {
        Producer { end, _marker: PhantomData }
    }

    /// Pushes a value onto the queue, waiting for room.
    ///
    /// If the queue is not full, this executes immediately. If it is full, the waiting strategy is
    /// a simple spin-wait: `try_push` is repeated until the value is taken in, `attempts` times
    /// at most. `None` means that the value was pushed. `Some(v)` hands the value back after that
    /// many attempts; a caller that wants to wait longer calls again with it. With no attempts,
    /// nothing is tried and the value comes back.
    pub fn push(&self, v: T, attempts: usize) -> (refused: Option<T>)
        ensures
            refused == None::<T> || refused == Some(v),
            attempts == 0 ==> refused == Some(v),
            self.bound() == 0 ==> refused == Some(v),
            exists|replies: Seq<Option<T>>| #[trigger]
                waiting::is_wait(replies, attempts as nat, Some(v), refused) && (forall|i: int|
                    0 <= i < replies.len() ==> self.shared().answers_push(v, #[trigger] replies[i])),
            self.shared().answers_push_wait(v, attempts as nat, refused),
    {
        let mut call = ProducerCall::new();
        self.end.push(v, attempts, &mut call)
    }

    /// Attempts to push a value onto the queue.
    ///
    /// This method does not wait for room. If the queue is not full, the value is added to the queue and
    /// the answer is `None`, signifying success. If the queue is full, the answer is `Some(v)`,
    /// where `v` is the value that was given.
    pub fn try_push(&self, v: T) -> (refused: Option<T>)
        ensures
            refused == None::<T> || refused == Some(v),
            self.bound() == 0 ==> refused == Some(v),
            refused is None ==> exists|before: Buffer<T>, after: Buffer<T>| #[trigger]
                before.push_step(after, v, refused) && before.bound() == self.bound()
                    && before@.len() < self.bound() && self.keeps(before) && self.keeps(after),
            self.shared().answers_push(v, refused),
    {
        let mut call = ProducerCall::new();
        self.end.try_push(v, &mut call)
    }

    /// Returns the total capacity of this queue.
    ///
    /// This is the number of values in the queue when it is full. It does not represent the
    /// current usage. For that, call `size`.
    pub fn capacity(&self) -> (capacity: usize)
        ensures
            capacity == self.bound(),
    {
        self.end.capacity()
    }

    /// Returns the current size of the queue, from 0 to `capacity` inclusive.
    pub fn size(&self) -> (size: usize)
        ensures
            size <= self.bound(),
            self.shared().shows_size(size as nat),
    {
        let mut call = ProducerCall::new();
        self.end.size(&mut call)
    }

    /// Returns the available space in the queue: the number of values that can be pushed onto it
    /// before it becomes full.
    pub fn free_space(&self) -> (free: usize)
        ensures
            free <= self.bound(),
            self.shared().shows_size((self.bound() - free) as nat),
    {
        self.capacity() - self.size()
    }
}

} // verus!
