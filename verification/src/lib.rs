//! A bounded queue for a single producer and a single consumer.
//!
//! [`make`] creates a queue and returns its two handles. Each handle belongs to one thread at a
//! time, and the two can be in different threads.
use vstd::prelude::*;

pub mod buffer;
pub mod laws;
pub mod model;
pub mod padded;
pub mod position;
pub mod turns;
pub mod waiting;

mod consumer;
mod lock;
mod producer;
mod shared;

pub use buffer::fits;
pub use consumer::Consumer;
pub use producer::Producer;
use shared::{ends, Locked};

verus! {

/// Creates a new queue, returning a `Producer` and a `Consumer` handle.
///
/// `capacity` specifies the size of the bounded queue. It takes up memory for
/// `capacity.next_power_of_two()` slots, each of the size of an `Option<T>`, since a ring whose
/// size is a power of two can be indexed by a bitwise AND instead of a more expensive modulo
/// operator. Whether a ring for that capacity can be laid out at all, [`fits`] tells.
///
/// The queue is empty at first.
pub fn make<T>(capacity: usize) -> (handles: (Producer<T>, Consumer<T>))
    requires
        buffer::ring_fits::<T>(capacity as nat),
    ensures
        handles.0.feeds(handles.1),
        handles.0.bound() == capacity,
        handles.1.bound() == capacity,
        handles.0.first().is_new(capacity as nat),
        handles.0.keeps(handles.0.first()),
        handles.1.first() == handles.0.first(),
{
    let (push_end, pop_end) = ends(Locked::new(capacity));
    (Producer::new(push_end), Consumer::new(pop_end))
}

} // verus!
