//! A lock that remembers, for the proofs, the value that it was made with and what its holders made
//! of it since.
//!
//! The only way to the value behind a lock is [`take_turn`]. A turn uses up the task that it is
//! given, and does nothing to the value but that task, once. It is noted in a log, so that what
//! hands a log on can tell all the turns that were taken for it.
use std::sync::{Mutex, MutexGuard};
use vstd::prelude::*;

verus! {

/// `std::sync::Mutex`: a value that one thread at a time can reach.
#[verifier::external_type_specification]
#[verifier::external_body]
#[verifier::reject_recursive_types(T)]
pub struct ExMutex<T: ?Sized>(Mutex<T>);

/// `std::sync::MutexGuard`: what holds a lock until it is dropped.
#[verifier::external_type_specification]
#[verifier::external_body]
#[verifier::reject_recursive_types(T)]
pub struct ExMutexGuard<'a, T: ?Sized + 'a>(MutexGuard<'a, T>);

/// A value behind a lock.
#[verifier::reject_recursive_types(V)]
pub struct Lock<V> {
    inner: Mutex<V>,
    made_with: Ghost<V>,
    /// The values that are ever behind the lock.
    kept: Ghost<Set<V>>,
    /// What the turns find and what they leave.
    turns: Ghost<Set<(V, V)>>,
}

/// A lock that is held, until this is dropped.
#[verifier::reject_recursive_types(V)]
pub struct Held<'a, V> {
    guard: MutexGuard<'a, V>,
    of: Ghost<Lock<V>>,
}

impl<V> Lock<V> {
    /// The value that the lock was made with.
    pub closed spec fn made_with(self) -> V {
        self.made_with@
    }

    /// At some time, `value` is the value behind this lock.
    pub closed spec fn keeps(self, value: V) -> bool {
        self.kept@.contains(value)
    }

    /// One of the turns at this lock finds `before` and leaves `after`. A turn is what one holder of
    /// the lock does to the value, from when it reaches for it until it is done with it.
    pub closed spec fn turns(self, before: V, after: V) -> bool {
        self.turns@.contains((before, after))
    }
}

impl<'a, V> Held<'a, V> {
    /// The lock that is held.
    pub closed spec fn of(self) -> Lock<V> {
        self.of@
    }
}

/// `Mutex::new`: a lock around the value, free at first. The value that it is made with, and that
/// is behind it at first, is the one that was given. Which other values are ever behind the lock,
/// and what the turns at it are, is left open.
#[verifier::external_body]
pub(crate) fn new_lock<V>(value: V) -> (lock: Lock<V>)
    ensures
        lock.made_with() == value,
        lock.keeps(value),
{
    let made_with = Ghost(value);
    let inner = Mutex::new(value);
    Lock { inner, made_with, kept: Ghost(arbitrary()), turns: Ghost(arbitrary()) }
}

/// `Mutex::lock`: waits until this lock is free and takes it. A lock whose holder panicked is taken
/// all the same. Nothing is claimed of the value inside, which is as the last holder left it.
#[verifier::external_body]
fn take_lock<'a, V>(lock: &'a Lock<V>) -> (held: Held<'a, V>)
    ensures
        held.of() == *lock,
{
    let of = Ghost(*lock);
    match lock.inner.lock() {
        Ok(guard) => Held { guard, of },
        Err(poisoned) => Held { guard: poisoned.into_inner(), of },
    }
}

/// `MutexGuard::deref_mut`: the value behind the lock that is held, to be read and changed. It is
/// behind that lock when it is handed out, and what the holder makes of it is behind that lock when
/// the holder is done with it: that is one turn, from the one to the other.
#[verifier::external_body]
fn reach<'a, 'b, V>(held: &'b mut Held<'a, V>) -> (value: &'b mut V)
    ensures
        old(held).of().keeps(*value),
        old(held).of().keeps(*final(value)),
        old(held).of().turns(*value, *final(value)),
{
    &mut *held.guard
}

/// What a turn is taken for.
pub trait Task<V>: Sized {
    type Answer;

    /// The task may turn `before` into `after` and be answered with `answer`.
    spec fn performs(self, before: V, after: V, answer: Self::Answer) -> bool;

    /// Performs the task, and uses it up.
    fn perform(self, value: &mut V) -> (answer: Self::Answer)
        ensures
            self.performs(*old(value), *final(value), answer),
    ;
}

/// Where turns are noted.
pub trait Log<V> {
    /// The turns that were noted, in order: what each found and what it left.
    spec fn turns(&self) -> Seq<(V, V)>;

    /// Notes one more turn.
    fn note(&mut self, before: Ghost<V>, after: Ghost<V>)
        ensures
            final(self).turns() == old(self).turns().push((before@, after@)),
    ;
}

/// Takes a turn for the given task: the answer is that of the task, performed on what this turn
/// found, and what the task made of it is what this turn left. The turn is noted in the log.
pub(crate) fn take_turn<V, K: Task<V>, L: Log<V>>(lock: &Lock<V>, task: K, log: &mut L) -> (answer:
    K::Answer)
    ensures
        ({
            let (before, after) = final(log).turns().last();
            &&& final(log).turns() == old(log).turns().push((before, after))
            &&& task.performs(before, after, answer)
            &&& lock.turns(before, after)
            &&& lock.keeps(before)
            &&& lock.keeps(after)
        }),
{
    let mut held = take_lock(lock);
    let value = reach(&mut held);
    let ghost before = *value;
    let answer = task.perform(&mut *value);
    log.note(Ghost(before), Ghost(*value));
    answer
}

} // verus!
