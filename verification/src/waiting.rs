//! What a handle does between two attempts while it waits for the other end of the queue.
use vstd::prelude::*;

verus! {

/// What follows an attempt to push.
pub enum PushWait<T> {
    /// The value was taken in.
    Done,
    /// Try again with the value.
    Retry(T),
    /// Hand the value back.
    GiveUp(T),
}

/// What follows an attempt to pop.
pub enum PopWait<T> {
    /// This is the value.
    Done(T),
    /// Try again.
    Retry,
    /// There is no value.
    GiveUp,
}

/// Decides what follows an attempt to push that was answered with `reply`, where `left` attempts
/// are left.
pub fn after_push_attempt<T>(reply: Option<T>, left: usize) -> (next: PushWait<T>)
    ensures
        next == (match reply {
            None => PushWait::Done,
            Some(v) => if left > 0 {
                PushWait::Retry(v)
            } else {
                PushWait::GiveUp(v)
            },
        }),
{
    match reply {
        None => PushWait::Done,
        Some(v) => if left > 0 {
            PushWait::Retry(v)
        } else {
            PushWait::GiveUp(v)
        },
    }
}

/// Decides what follows an attempt to pop that was answered with `reply`, where `left` attempts are
/// left.
pub fn after_pop_attempt<T>(reply: Option<T>, left: usize) -> (next: PopWait<T>)
    ensures
        next == (match reply {
            Some(v) => PopWait::Done(v),
            None => if left > 0 {
                PopWait::Retry
            } else {
                PopWait::GiveUp
            },
        }),
{
    match reply {
        Some(v) => PopWait::Done(v),
        None => if left > 0 {
            PopWait::Retry
        } else {
            PopWait::GiveUp
        },
    }
}

/// The answers to the attempts of one wait: at most `attempts` of them, each but the last one
/// `waiting`, and the last one `outcome`. The wait ends with `waiting` only where no attempt is
/// left.
pub open spec fn is_wait<T>(
    replies: Seq<Option<T>>,
    attempts: nat,
    waiting: Option<T>,
    outcome: Option<T>,
) -> bool {
    &&& replies.len() <= attempts
    &&& replies.len() < attempts ==> outcome != waiting
    &&& replies.len() == 0 ==> outcome == waiting
    &&& forall|i: int| 0 <= i < replies.len() - 1 ==> #[trigger] replies[i] == waiting
    &&& replies.len() > 0 ==> replies.last() == outcome
}

} // verus!
