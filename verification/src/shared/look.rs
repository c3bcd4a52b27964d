//! Looking: nothing can be done here to a queue.
use vstd::prelude::*;

use super::{Locked, Shared};
use crate::lock::{take_turn, Log, Task};

verus! {

/// To look how many values there are, in a queue of that capacity.
struct Looking {
    capacity: usize,
}

impl<T> Task<Locked<T>> for Looking {
    type Answer = usize;

    closed spec fn performs(self, before: Locked<T>, after: Locked<T>, size: usize) -> bool {
        &&& before.buffer().has_size_within(self.capacity as nat, size as nat)
        &&& after.buffer() == before.buffer()
    }

    fn perform(self, locked: &mut Locked<T>) -> (size: usize) {
        proof {
            use_type_invariant(&*locked);
        }
        if locked.buffer.capacity() != self.capacity {
            return 0;
        }
        locked.buffer.size()
    }
}

impl<T> Shared<T> {
    /// Returns the capacity that the queue was made with.
    pub(super) fn capacity(&self) -> (capacity: usize)
        ensures
            capacity == self.bound(),
    {
        proof {
            use_type_invariant(self);
        }
        self.capacity
    }

    /// Returns the number of values in the queue at the moment of the call.
    pub(super) fn size<L: Log<Locked<T>>>(&self, log: &mut L) -> (size: usize)
        ensures
            size <= self.bound(),
            self.shows_size(size as nat),
            final(log).turns() == old(log).turns().push(final(log).turns().last()),
            self.is_look_turn(
                final(log).turns().last().0.buffer(),
                final(log).turns().last().1.buffer(),
                size as nat,
            ),
    {
        proof {
            use_type_invariant(self);
        }
        let task = Looking { capacity: self.capacity };
        let size: usize = take_turn(&self.lock, task, log);
        proof {
            let (found, left) = log.turns().last();
            assert(self.is_look_turn(found.buffer(), left.buffer(), size as nat));
            found.buffer().law_within_capacity();
        }
        size
    }
}

} // verus!
