//! The buffer as the two handles of a queue share it.
//!
//! The buffer stands behind a lock, so what one handle does to it is never seen half done by the
//! other. What a handle does is a turn at the lock, taken for one task: to push, to pop, to skip or
//! to look. Which buffer a turn finds depends on what the other handle did meanwhile, so the
//! contracts here hold whatever that was.
//!
//! Each task can be given from one place only: pushing from `push`, popping from `pop`, skipping
//! from `skip`, looking from `look`. What a handle calls starts a log, so that the log tells all the
//! turns that were taken for the call.
//!
//! The buffer behind the lock has the capacity that the queue was made with. The lock does not tell
//! so of what it gives out, so every task compares.
use vstd::prelude::*;

use crate::buffer;
use crate::buffer::Buffer;
use crate::lock::{new_lock, Lock};

mod ends;
mod look;
mod pop;
mod push;
mod skip;

pub(crate) use ends::ends;
pub use ends::PopEnd;
pub use pop::Pops;
pub use push::PushEnd;
pub use skip::Skips;

verus! {

/// A buffer that keeps its invariant at all times, also while the lock is free.
#[verifier::reject_recursive_types(T)]
pub struct Locked<T> {
    buffer: Buffer<T>,
}

impl<T> Locked<T> {
    #[verifier::type_invariant]
    spec fn inv(self) -> bool {
        self.buffer.wf()
    }

    /// The buffer.
    pub closed spec fn buffer(self) -> Buffer<T> {
        self.buffer
    }

    /// Creates an empty buffer that may hold `capacity` values, to be put behind a lock.
    pub(crate) fn new(capacity: usize) -> (locked: Self)
        requires
            buffer::ring_fits::<T>(capacity as nat),
        ensures
            locked.buffer().is_new(capacity as nat),
    {
        Locked { buffer: Buffer::new(capacity) }
    }

    /// Returns the capacity of the buffer.
    pub(crate) fn capacity(&self) -> (capacity: usize)
        ensures
            capacity == self.buffer().bound(),
    {
        self.buffer.capacity()
    }
}

/// What the two handles of a queue have in common.
#[verifier::reject_recursive_types(T)]
pub struct Shared<T> {
    capacity: usize,
    lock: Lock<Locked<T>>,
}

impl<T> Shared<T> {
    #[verifier::type_invariant]
    spec fn inv(self) -> bool {
        self.capacity == self.lock.made_with().buffer().bound()
    }

    /// The buffer that went behind the lock, as it was then.
    pub closed spec fn first(self) -> Buffer<T> {
        self.lock.made_with().buffer()
    }

    /// The capacity of the queue: that of the buffer that went behind the lock.
    pub open spec fn bound(self) -> nat {
        self.first().bound()
    }

    /// At some time, the buffer behind the lock is as `buffer`.
    pub closed spec fn keeps(self, buffer: Buffer<T>) -> bool {
        self.lock.keeps(Locked { buffer })
    }

    /// One of the turns at the lock finds the buffer as `before` and leaves it as `after`.
    pub closed spec fn turns(self, before: Buffer<T>, after: Buffer<T>) -> bool {
        self.lock.turns(Locked { buffer: before }, Locked { buffer: after })
    }

    /// A turn that finds the buffer as `before` and leaves it as `after` is an attempt to push `v`,
    /// answered with `refused`.
    pub open spec fn is_push_turn(
        self,
        before: Buffer<T>,
        after: Buffer<T>,
        v: T,
        refused: Option<T>,
    ) -> bool {
        self.turns(before, after) && before.push_step_within(self.bound(), after, v, refused)
            && self.keeps(before) && self.keeps(after)
    }

    /// A turn that finds the buffer as `before` and leaves it as `after` is an attempt to pop,
    /// answered with `popped`.
    pub open spec fn is_pop_turn(
        self,
        before: Buffer<T>,
        after: Buffer<T>,
        popped: Option<T>,
    ) -> bool {
        self.turns(before, after) && before.pop_step_within(self.bound(), after, popped)
            && self.keeps(before) && self.keeps(after)
    }

    /// A turn that finds the buffer as `before` and leaves it as `after` skips at most `n` values,
    /// and `skipped` of them.
    pub open spec fn is_skip_turn(
        self,
        before: Buffer<T>,
        after: Buffer<T>,
        n: nat,
        skipped: nat,
    ) -> bool {
        self.turns(before, after) && before.skip_step_within(self.bound(), after, n, skipped)
            && self.keeps(before) && self.keeps(after)
    }

    /// A turn that finds the buffer as `before` and leaves it as `after` looks at the size and sees
    /// that it is `size`. It leaves the buffer as it was.
    pub open spec fn is_look_turn(self, before: Buffer<T>, after: Buffer<T>, size: nat) -> bool {
        self.turns(before, after) && before.has_size_within(self.bound(), size) && after == before
            && self.keeps(before)
    }

    /// An attempt to push `v` onto this queue may be answered with `refused`: that is the answer of
    /// a turn which did nothing to the buffer but that attempt.
    pub open spec fn answers_push(self, v: T, refused: Option<T>) -> bool {
        exists|before: Buffer<T>, after: Buffer<T>|
            self.is_push_turn(before, after, v, refused)
    }

    /// An attempt to pop off this queue may be answered with `popped`.
    pub open spec fn answers_pop(self, popped: Option<T>) -> bool {
        exists|before: Buffer<T>, after: Buffer<T>| self.is_pop_turn(before, after, popped)
    }

    /// Skipping at most `n` values of this queue may be answered with `skipped`.
    pub open spec fn answers_skip(self, n: nat, skipped: nat) -> bool {
        exists|before: Buffer<T>, after: Buffer<T>| self.is_skip_turn(before, after, n, skipped)
    }

    /// At some time, this queue has that size, and a turn that sees so leaves it as it was.
    pub open spec fn shows_size(self, size: nat) -> bool {
        exists|before: Buffer<T>, after: Buffer<T>| self.is_look_turn(before, after, size)
    }

    /// Those turns are the attempts of one wait to push `v`: at most `attempts` of them, each but
    /// the last one refused, and the last one answered with `refused`. The wait ends with a refusal
    /// only where no attempt is left.
    pub open spec fn is_push_wait(
        self,
        turns: Seq<(Locked<T>, Locked<T>)>,
        v: T,
        attempts: nat,
        refused: Option<T>,
    ) -> bool {
        &&& turns.len() <= attempts
        &&& turns.len() < attempts ==> refused is None
        &&& turns.len() == 0 ==> refused == Some(v)
        &&& forall|i: int|
            0 <= i < turns.len() ==> self.is_push_turn(
                (#[trigger] turns[i]).0.buffer(),
                turns[i].1.buffer(),
                v,
                if i < turns.len() - 1 {
                    Some(v)
                } else {
                    refused
                },
            )
    }

    /// Those turns are the attempts of one wait to pop: at most `attempts` of them, each but the
    /// last one in vain, and the last one answered with `popped`. The wait ends in vain only where
    /// no attempt is left.
    pub open spec fn is_pop_wait(
        self,
        turns: Seq<(Locked<T>, Locked<T>)>,
        attempts: nat,
        popped: Option<T>,
    ) -> bool {
        &&& turns.len() <= attempts
        &&& turns.len() < attempts ==> popped is Some
        &&& turns.len() == 0 ==> popped is None
        &&& forall|i: int|
            0 <= i < turns.len() ==> self.is_pop_turn(
                (#[trigger] turns[i]).0.buffer(),
                turns[i].1.buffer(),
                if i < turns.len() - 1 {
                    None
                } else {
                    popped
                },
            )
    }

    /// A wait to push `v` may be answered with `refused`: that is the answer of attempts, each of
    /// which is a turn that did nothing else to the buffer.
    pub open spec fn answers_push_wait(self, v: T, attempts: nat, refused: Option<T>) -> bool {
        exists|turns: Seq<(Locked<T>, Locked<T>)>| self.is_push_wait(turns, v, attempts, refused)
    }

    /// A wait to pop may be answered with `popped`: that is the answer of attempts, each of which is
    /// a turn that did nothing else to the buffer.
    pub open spec fn answers_pop_wait(self, attempts: nat, popped: Option<T>) -> bool {
        exists|turns: Seq<(Locked<T>, Locked<T>)>| self.is_pop_wait(turns, attempts, popped)
    }

    /// Puts a buffer behind a lock.
    fn new(locked: Locked<T>) -> (shared: Self)
        ensures
            shared.first() == locked.buffer(),
            shared.keeps(locked.buffer()),
    {
        let capacity = locked.capacity();
        Shared { capacity, lock: new_lock(locked) }
    }
}

} // verus!
