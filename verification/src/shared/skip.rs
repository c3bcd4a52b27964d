//! Skipping: all that can be done here to a queue is to skip values of it.
use vstd::prelude::*;

use super::ends::PopEnd;
use super::{Locked, Shared};
use crate::lock::{take_turn, Log, Task};

verus! {

/// To skip at most `n` values, in a queue of that capacity.
struct Skipping {
    n: usize,
    capacity: usize,
}

impl<T> Task<Locked<T>> for Skipping {
    type Answer = usize;

    closed spec fn performs(self, before: Locked<T>, after: Locked<T>, skipped: usize) -> bool {
        before.buffer().skip_step_within(
            self.capacity as nat,
            after.buffer(),
            self.n as nat,
            skipped as nat,
        )
    }

    fn perform(self, locked: &mut Locked<T>) -> (skipped: usize) {
        proof {
            use_type_invariant(&*locked);
        }
        if locked.buffer.capacity() != self.capacity {
            return 0;
        }
        locked.buffer.skip_n(self.n)
    }
}

impl<T> Shared<T> {
    /// Skips at most `n` values.
    fn skip_n<L: Log<Locked<T>>>(&self, n: usize, log: &mut L) -> (skipped: usize)
        ensures
            skipped <= n,
            skipped <= self.bound(),
            self.answers_skip(n as nat, skipped as nat),
            final(log).turns() == old(log).turns().push(final(log).turns().last()),
            self.is_skip_turn(
                final(log).turns().last().0.buffer(),
                final(log).turns().last().1.buffer(),
                n as nat,
                skipped as nat,
            ),
    {
        proof {
            use_type_invariant(self);
        }
        let task = Skipping { n, capacity: self.capacity };
        let skipped: usize = take_turn(&self.lock, task, log);
        proof {
            let (found, left) = log.turns().last();
            assert(self.is_skip_turn(found.buffer(), left.buffer(), n as nat, skipped as nat));
            found.buffer().law_within_capacity();
        }
        skipped
    }
}

/// The part of a `PopEnd` that can skip, and nothing else.
#[verifier::reject_recursive_types(T)]
pub struct Skips<'a, T> {
    shared: &'a Shared<T>,
}

impl<'a, T> Skips<'a, T> {
    /// What the two ends of the queue have in common.
    pub closed spec fn shared(self) -> Shared<T> {
        *self.shared
    }

    pub(super) fn of(end: &'a PopEnd<T>) -> (part: Self)
        ensures
            part.shared() == *end.shared(),
    {
        Skips { shared: end.common() }
    }

    /// Skips at most `n` values.
    pub(crate) fn skip_n<L: Log<Locked<T>>>(&self, n: usize, log: &mut L) -> (skipped: usize)
        requires
            old(log).turns().len() == 0,
        ensures
            skipped <= n,
            skipped <= self.shared().bound(),
            self.shared().answers_skip(n as nat, skipped as nat),
            final(log).turns() == old(log).turns().push(final(log).turns().last()),
            self.shared().is_skip_turn(
                final(log).turns().last().0.buffer(),
                final(log).turns().last().1.buffer(),
                n as nat,
                skipped as nat,
            ),
    {
        self.shared.skip_n(n, log)
    }
}

} // verus!
