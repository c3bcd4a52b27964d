# bounded_spsc_queue

A bounded queue for a single producer and a single consumer, verified with Verus.

`make(capacity)` returns a `Producer` and a `Consumer`. Each can be sent to a thread of its own.
The ring buffer between them stands behind a lock. A handle takes the lock and calls an operation of
the buffer. The contracts of the buffer say exactly what its operations do and answer. Those of the
handles say that the answer is that of a step from one buffer behind the queue's lock to another,
whatever the other handle did meanwhile; they do not tie one call to the next.

- `src/model.rs`: what the queue does, told on the sequence of its values
- `src/position.rs`: positions that wrap around, and the slots that they fall on
- `src/padded.rs`: counters on cache lines of their own
- `src/buffer.rs`: the ring buffer, with its invariant
- `src/lock.rs`: a lock that remembers what it was made with
- `src/shared.rs`: the buffer behind a lock, as the two handles share it
- `src/waiting.rs`: what a handle does between two attempts
- `src/producer.rs`, `src/consumer.rs`, `src/lib.rs`: the handles
- `src/laws.rs`: what holds over any number of operations
- `app/`: waiting without a limit
