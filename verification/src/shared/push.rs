//! Pushing: all that can be done here to a queue is to push values onto it.
use std::sync::Arc;
use vstd::prelude::*;

use super::{Locked, Shared};
use crate::lock::{take_turn, Log, Task};
use crate::waiting;
use crate::waiting::{after_push_attempt, PushWait};

verus! {

/// To push `v`, in a queue of that capacity.
#[verifier::reject_recursive_types(T)]
struct Pushing<T> {
    v: T,
    capacity: usize,
}

impl<T> Task<Locked<T>> for Pushing<T> {
    type Answer = Option<T>;

    closed spec fn performs(self, before: Locked<T>, after: Locked<T>, refused: Option<T>) -> bool {
        before.buffer().push_step_within(self.capacity as nat, after.buffer(), self.v, refused)
    }

    fn perform(self, locked: &mut Locked<T>) -> (refused: Option<T>) {
        proof {
            use_type_invariant(&*locked);
        }
        if locked.buffer.capacity() != self.capacity {
            return Some(self.v);
        }
        locked.buffer.try_push(self.v)
    }
}

impl<T> Shared<T> {
    /// Attempts to push a value.
    fn try_push<L: Log<Locked<T>>>(&self, v: T, log: &mut L) -> (refused: Option<T>)
        ensures
            refused == None::<T> || refused == Some(v),
            self.bound() == 0 ==> refused == Some(v),
            self.answers_push(v, refused),
            final(log).turns() == old(log).turns().push(final(log).turns().last()),
            self.is_push_turn(
                final(log).turns().last().0.buffer(),
                final(log).turns().last().1.buffer(),
                v,
                refused,
            ),
    {
        proof {
            use_type_invariant(self);
        }
        let task = Pushing { v, capacity: self.capacity };
        let refused = take_turn(&self.lock, task, log);
        proof {
            let (found, left) = log.turns().last();
            assert(self.is_push_turn(found.buffer(), left.buffer(), v, refused));
        }
        refused
    }
}

/// The end of a queue at which values are pushed. There is nothing else that it can do to the queue:
/// it can push, and it can look.
#[verifier::reject_recursive_types(T)]
pub struct PushEnd<T> {
    shared: Arc<Shared<T>>,
}

impl<T> PushEnd<T> {
    /// What this end has in common with the other.
    pub closed spec fn shared(self) -> Arc<Shared<T>> {
        self.shared
    }

    pub(super) fn new(shared: Arc<Shared<T>>) -> (end: Self)
        ensures
            end.shared() == shared,
    {
        PushEnd { shared }
    }

    /// Attempts to push a value.
    pub(crate) fn try_push<L: Log<Locked<T>>>(&self, v: T, log: &mut L) -> (refused: Option<T>)
        requires
            old(log).turns().len() == 0,
        ensures
            refused == None::<T> || refused == Some(v),
            self.shared().bound() == 0 ==> refused == Some(v),
            self.shared().answers_push(v, refused),
            final(log).turns() == old(log).turns().push(final(log).turns().last()),
            self.shared().is_push_turn(
                final(log).turns().last().0.buffer(),
                final(log).turns().last().1.buffer(),
                v,
                refused,
            ),
    {
        self.shared.try_push(v, log)
    }

    /// Attempts to push a value until it is taken in, `attempts` times at most.
    pub(crate) fn push<L: Log<Locked<T>>>(
        &self,
        v: T,
        attempts: usize,
        log: &mut L,
    ) -> (refused: Option<T>)
        requires
            old(log).turns().len() == 0,
        ensures
            refused == None::<T> || refused == Some(v),
            attempts == 0 ==> refused == Some(v),
            self.shared().bound() == 0 ==> refused == Some(v),
            exists|replies: Seq<Option<T>>| #[trigger]
                waiting::is_wait(replies, attempts as nat, Some(v), refused) && (forall|i: int|
                    0 <= i < replies.len() ==> self.shared().answers_push(v, #[trigger] replies[i])),
            self.shared().answers_push_wait(v, attempts as nat, refused),
            self.shared().is_push_wait(final(log).turns(), v, attempts as nat, refused),
    {
        let mut t = v;
        let mut left: usize = attempts;
        let ghost mut replies: Seq<Option<T>> = Seq::empty();
        while left > 0
            invariant
                t == v,
                left <= attempts,
                replies.len() == attempts - left,
                forall|i: int| 0 <= i < replies.len() ==> #[trigger] replies[i] == Some(v),
                forall|i: int|
                    0 <= i < replies.len() ==> self.shared().answers_push(v, #[trigger] replies[i]),
                log.turns().len() == replies.len(),
                forall|i: int|
                    0 <= i < log.turns().len() ==> self.shared().is_push_turn(
                        (#[trigger] log.turns()[i]).0.buffer(),
                        log.turns()[i].1.buffer(),
                        v,
                        Some(v),
                    ),
            decreases left,
        {
            left = left - 1;
            let reply = self.shared.try_push(t, log);
            proof {
                replies = replies.push(reply);
            }
            match after_push_attempt(reply, left) {
                PushWait::Done => {
                    assert(waiting::is_wait(replies, attempts as nat, Some(v), None));
                    assert(self.shared().is_push_wait(log.turns(), v, attempts as nat, None));
                    return None;
                },
                PushWait::Retry(rv) => t = rv,
                PushWait::GiveUp(rv) => {
                    assert(waiting::is_wait(replies, attempts as nat, Some(v), Some(v)));
                    assert(self.shared().is_push_wait(log.turns(), v, attempts as nat, Some(v)));
                    return Some(rv);
                },
            }
        }
        assert(waiting::is_wait(replies, attempts as nat, Some(v), Some(v)));
        assert(self.shared().is_push_wait(log.turns(), v, attempts as nat, Some(v)));
        Some(t)
    }

    /// Returns the capacity that the queue was made with.
    pub(crate) fn capacity(&self) -> (capacity: usize)
        ensures
            capacity == self.shared().bound(),
    {
        self.shared.capacity()
    }

    /// Returns the number of values in the queue at the moment of the call.
    pub(crate) fn size<L: Log<Locked<T>>>(&self, log: &mut L) -> (size: usize)
        requires
            old(log).turns().len() == 0,
        ensures
            size <= self.shared().bound(),
            self.shared().shows_size(size as nat),
            final(log).turns() == old(log).turns().push(final(log).turns().last()),
            self.shared().is_look_turn(
                final(log).turns().last().0.buffer(),
                final(log).turns().last().1.buffer(),
                size as nat,
            ),
    {
        self.shared.size(log)
    }
}

} // verus!
