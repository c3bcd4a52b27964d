//! Popping: all that can be done here to a queue is to pop values off it.
use vstd::prelude::*;

use super::ends::PopEnd;
use super::{Locked, Shared};
use crate::lock::{take_turn, Log, Task};
use crate::waiting;
use crate::waiting::{after_pop_attempt, PopWait};

verus! {

/// To pop, in a queue of that capacity.
struct Popping {
    capacity: usize,
}

impl<T> Task<Locked<T>> for Popping {
    type Answer = Option<T>;

    closed spec fn performs(self, before: Locked<T>, after: Locked<T>, popped: Option<T>) -> bool {
        before.buffer().pop_step_within(self.capacity as nat, after.buffer(), popped)
    }

    fn perform(self, locked: &mut Locked<T>) -> (popped: Option<T>) {
        proof {
            use_type_invariant(&*locked);
        }
        if locked.buffer.capacity() != self.capacity {
            return None;
        }
        locked.buffer.try_pop()
    }
}

impl<T> Shared<T> {
    /// Attempts to pop a value.
    fn try_pop<L: Log<Locked<T>>>(&self, log: &mut L) -> (popped: Option<T>)
        ensures
            self.bound() == 0 ==> popped == None::<T>,
            self.answers_pop(popped),
            final(log).turns() == old(log).turns().push(final(log).turns().last()),
            self.is_pop_turn(
                final(log).turns().last().0.buffer(),
                final(log).turns().last().1.buffer(),
                popped,
            ),
    {
        proof {
            use_type_invariant(self);
        }
        let task = Popping { capacity: self.capacity };
        let popped: Option<T> = take_turn(&self.lock, task, log);
        proof {
            let (found, left) = log.turns().last();
            assert(self.is_pop_turn(found.buffer(), left.buffer(), popped));
            found.buffer().law_within_capacity();
        }
        popped
    }
}

/// The part of a `PopEnd` that can pop, and nothing else.
#[verifier::reject_recursive_types(T)]
pub struct Pops<'a, T> {
    shared: &'a Shared<T>,
}

impl<'a, T> Pops<'a, T> {
    /// What the two ends of the queue have in common.
    pub closed spec fn shared(self) -> Shared<T> {
        *self.shared
    }

    pub(super) fn of(end: &'a PopEnd<T>) -> (part: Self)
        ensures
            part.shared() == *end.shared(),
    {
        Pops { shared: end.common() }
    }

    /// Attempts to pop a value.
    pub(crate) fn try_pop<L: Log<Locked<T>>>(&self, log: &mut L) -> (popped: Option<T>)
        requires
            old(log).turns().len() == 0,
        ensures
            self.shared().bound() == 0 ==> popped == None::<T>,
            self.shared().answers_pop(popped),
            final(log).turns() == old(log).turns().push(final(log).turns().last()),
            self.shared().is_pop_turn(
                final(log).turns().last().0.buffer(),
                final(log).turns().last().1.buffer(),
                popped,
            ),
    {
        self.shared.try_pop(log)
    }

    /// Attempts to pop a value until there is one, `attempts` times at most.
    pub(crate) fn pop<L: Log<Locked<T>>>(&self, attempts: usize, log: &mut L) -> (popped: Option<T>)
        requires
            old(log).turns().len() == 0,
        ensures
            attempts == 0 ==> popped == None::<T>,
            self.shared().bound() == 0 ==> popped == None::<T>,
            exists|replies: Seq<Option<T>>| #[trigger]
                waiting::is_wait(replies, attempts as nat, None, popped) && (forall|i: int|
                    0 <= i < replies.len() ==> self.shared().answers_pop(#[trigger] replies[i])),
            self.shared().answers_pop_wait(attempts as nat, popped),
            self.shared().is_pop_wait(final(log).turns(), attempts as nat, popped),
    {
        let mut left: usize = attempts;
        let ghost mut replies: Seq<Option<T>> = Seq::empty();
        while left > 0
            invariant
                left <= attempts,
                replies.len() == attempts - left,
                forall|i: int| 0 <= i < replies.len() ==> #[trigger] replies[i] == None::<T>,
                forall|i: int|
                    0 <= i < replies.len() ==> self.shared().answers_pop(#[trigger] replies[i]),
                log.turns().len() == replies.len(),
                forall|i: int|
                    0 <= i < log.turns().len() ==> self.shared().is_pop_turn(
                        (#[trigger] log.turns()[i]).0.buffer(),
                        log.turns()[i].1.buffer(),
                        None,
                    ),
            decreases left,
        {
            left = left - 1;
            let reply = self.shared.try_pop(log);
            proof {
                replies = replies.push(reply);
            }
            match after_pop_attempt(reply, left) {
                PopWait::Done(v) => {
                    assert(waiting::is_wait(replies, attempts as nat, None, Some(v)));
                    assert(self.shared().is_pop_wait(log.turns(), attempts as nat, Some(v)));
                    return Some(v);
                },
                PopWait::Retry => {},
                PopWait::GiveUp => {
                    assert(waiting::is_wait(replies, attempts as nat, None, None));
                    assert(self.shared().is_pop_wait(log.turns(), attempts as nat, None));
                    return None;
                },
            }
        }
        assert(waiting::is_wait(replies, attempts as nat, None, None));
        assert(self.shared().is_pop_wait(log.turns(), attempts as nat, None));
        None
    }
}

} // verus!
