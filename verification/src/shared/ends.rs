//! The two ends of a queue.
use std::sync::Arc;
use vstd::prelude::*;

use super::pop::Pops;
use super::push::PushEnd;
use super::skip::Skips;
use super::{Locked, Shared};
use crate::lock::Log;

verus! {

/// `Arc::clone`: another pointer to the same value.
#[verifier::external_body]
fn another<T>(shared: &Arc<Shared<T>>) -> (pointer: Arc<Shared<T>>)
    ensures
        pointer == *shared,
{
    Arc::clone(shared)
}

/// The end of a queue at which values leave. It can pop and skip, and it can look.
#[verifier::reject_recursive_types(T)]
pub struct PopEnd<T> {
    shared: Arc<Shared<T>>,
}

/// Puts a buffer behind a lock, and returns the two ends of it.
pub(crate) fn ends<T>(locked: Locked<T>) -> (ends: (PushEnd<T>, PopEnd<T>))
    ensures
        ends.0.shared() == ends.1.shared(),
        ends.0.shared().first() == locked.buffer(),
        ends.0.shared().keeps(locked.buffer()),
{
    let shared = Arc::new(Shared::new(locked));
    (PushEnd::new(another(&shared)), PopEnd { shared: another(&shared) })
}

impl<T> PopEnd<T> {
    /// What this end has in common with the other.
    pub closed spec fn shared(self) -> Arc<Shared<T>> {
        self.shared
    }

    /// Returns what this end has in common with the other.
    pub(super) fn common(&self) -> (common: &Shared<T>)
        ensures
            *common == *self.shared(),
    {
        &*self.shared
    }

    /// Returns the part of this end that can pop.
    pub(crate) fn pops(&self) -> (pops: Pops<'_, T>)
        ensures
            pops.shared() == *self.shared(),
    {
        Pops::of(self)
    }

    /// Returns the part of this end that can skip.
    pub(crate) fn skips(&self) -> (skips: Skips<'_, T>)
        ensures
            skips.shared() == *self.shared(),
    {
        Skips::of(self)
    }

    /// Returns the capacity that the queue was made with.
    pub(crate) fn capacity(&self) -> (capacity: usize)
        ensures
            capacity == self.shared().bound(),
    {
        self.shared.capacity()
    }

    /// Returns the number of values in the queue at the moment of the call.
    pub(crate) fn size<L: Log<Locked<T>>>(&self, log: &mut L) -> (size: usize)
        requires
            old(log).turns().len() == 0,
        ensures
            size <= self.shared().bound(),
            self.shared().shows_size(size as nat),
            final(log).turns() == old(log).turns().push(final(log).turns().last()),
            self.shared().is_look_turn(
                final(log).turns().last().0.buffer(),
                final(log).turns().last().1.buffer(),
                size as nat,
            ),
    {
        self.shared.size(log)
    }
}

} // verus!
