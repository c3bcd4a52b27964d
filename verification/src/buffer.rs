//! The ring buffer behind a queue.
//!
//! Each end of the queue has a counter of its own, and a shadow of the other end's counter. An end
//! goes by the shadow as long as it can, and looks at the other end's counter only where the shadow
//! says that the buffer is full, or empty.
use cache_padded::CachePadded;
use vstd::prelude::*;

use crate::laws;
use crate::model;
use crate::model::Operation;
use crate::padded;
use crate::padded::{pad, unpad};
use crate::position;
use crate::position::{advance, distance_between, slot_index};

verus! {

/// `core::mem::forget`: takes a value without running its destructor, and so does nothing that
/// could unwind.
#[verifier::external_body]
fn leak<T>(value: T)
    no_unwind
{
    core::mem::forget(value)
}

/// The counters that the consumer writes.
pub struct ConsumerMetadata {
    /// The position of the value that is popped next.
    head: CachePadded<usize>,
    /// What the consumer last saw of the producer's `tail`.
    shadow_tail: CachePadded<usize>,
}

/// The counters that the producer writes.
pub struct ProducerMetadata {
    /// The position of the value that is pushed next.
    tail: CachePadded<usize>,
    /// What the producer last saw of the consumer's `head`.
    shadow_head: CachePadded<usize>,
}

/// The bounded ring buffer behind a queue.
///
/// The buffer holds a ring of slots, and a head and a tail position that track where in the ring
/// the values lie.
pub struct Buffer<T> {
    /// The ring. A slot is occupied while its value is in the queue.
    buffer: Vec<Option<T>>,
    /// The bounded size as asked for. A buffer that holds this many values is full.
    capacity: usize,
    /// The number of slots: the next power of two that is not below `capacity`.
    allocated_size: CachePadded<usize>,
    consumer_metadata: ConsumerMetadata,
    producer_metadata: ProducerMetadata,
    /// Everything that was done to the buffer since it was created.
    history: Ghost<Seq<Operation<T>>>,
}

impl<T> View for Buffer<T> {
    type V = Seq<T>;

    /// The values in the buffer, the one that is popped next first.
    closed spec fn view(&self) -> Seq<T> {
        Seq::new(self.occupied(), |k: int| self.slot_ahead(k)->0)
    }
}

impl<T> Buffer<T> {
    /// How many values the buffer may hold.
    pub closed spec fn bound(self) -> nat {
        self.capacity as nat
    }

    /// The number of slots.
    pub closed spec fn ring_size(self) -> nat {
        padded::padded_value(self.allocated_size) as nat
    }

    /// The slots, in the order in which they lie in memory.
    pub closed spec fn slots(self) -> Seq<Option<T>> {
        self.buffer@
    }

    /// Everything that was done to the buffer since it was created, in the order in which it was
    /// done.
    pub closed spec fn history(self) -> Seq<Operation<T>> {
        self.history@
    }

    /// The position of the value that is popped next.
    pub closed spec fn head(self) -> usize {
        padded::padded_value(self.consumer_metadata.head)
    }

    /// What the consumer last saw of the tail.
    pub closed spec fn shadow_tail(self) -> usize {
        padded::padded_value(self.consumer_metadata.shadow_tail)
    }

    /// The position of the value that is pushed next.
    pub closed spec fn tail(self) -> usize {
        padded::padded_value(self.producer_metadata.tail)
    }

    /// What the producer last saw of the head.
    pub closed spec fn shadow_head(self) -> usize {
        padded::padded_value(self.producer_metadata.shadow_head)
    }

    /// What a load from a position gives.
    pub open spec fn loaded(self, pos: usize) -> Option<T> {
        self.slots()[position::slot_of(pos as int, self.ring_size())]
    }

    /// The slots after a load from a position.
    pub open spec fn slots_after_load(self, pos: usize) -> Seq<Option<T>> {
        self.slots().update(position::slot_of(pos as int, self.ring_size()), None)
    }

    /// The slots after a store to a position.
    pub open spec fn slots_after_store(self, pos: usize, v: T) -> Seq<Option<T>> {
        self.slots().update(position::slot_of(pos as int, self.ring_size()), Some(v))
    }

    /// How many values lie between the head and the tail.
    spec fn occupied(self) -> nat {
        position::distance(self.head(), self.tail())
    }

    /// The slot that lies `k` steps ahead of the head.
    spec fn slot_ahead(self, k: int) -> Option<T> {
        self.buffer@[position::slot_of(self.head() + k, self.ring_size())]
    }

    /// The part of the invariant that concerns the ring itself.
    spec fn ring_wf(self) -> bool {
        &&& self.buffer@.len() == self.ring_size()
        &&& position::is_next_power_of_two(self.capacity as nat, self.ring_size())
    }

    /// The part of the invariant that concerns the counters. A shadow may lag behind the counter
    /// that it shadows, but by no more than what keeps it safe to trust.
    spec fn counters_wf(self) -> bool {
        &&& self.occupied() <= self.capacity
        &&& position::distance(self.shadow_head(), self.head()) + self.occupied()
            == position::distance(self.shadow_head(), self.tail())
        &&& position::distance(self.shadow_head(), self.tail()) <= self.capacity
        &&& position::distance(self.head(), self.shadow_tail()) <= self.occupied()
    }

    /// The slots from the head up to the tail are occupied, all others are not.
    spec fn slots_wf(self) -> bool {
        forall|k: int|
            0 <= k < self.ring_size() ==> ((#[trigger] self.slot_ahead(k)) is Some <==> k
                < self.occupied())
    }

    /// What lies in memory is a queue.
    spec fn layout_wf(self) -> bool {
        &&& self.ring_wf()
        &&& self.counters_wf()
        &&& self.slots_wf()
    }

    /// The invariant of the buffer: what lies in memory is a queue, namely the one that everything
    /// that was done to the buffer leads to.
    pub closed spec fn wf(self) -> bool {
        &&& self.layout_wf()
        &&& self@ == model::run(self.bound(), self.history()).contents
    }

    /// An attempt to push `v` leads from this buffer to `after` and is answered with `refused`.
    pub open spec fn push_step(self, after: Self, v: T, refused: Option<T>) -> bool {
        &&& self.wf()
        &&& after.wf()
        &&& after.bound() == self.bound()
        &&& after.history() == self.history().push(Operation::Push(v))
        &&& after@ == model::after_push(self@, self.bound(), v)
        &&& refused == model::push_reply(self@, self.bound(), v)
        &&& after.ring_size() == self.ring_size()
        &&& after.head() == self.head()
        &&& after.shadow_tail() == self.shadow_tail()
        &&& after.tail() == (if refused is None {
            position::ahead(self.tail(), 1)
        } else {
            self.tail()
        })
    }

    /// An attempt to pop leads from this buffer to `after` and is answered with `popped`.
    pub open spec fn pop_step(self, after: Self, popped: Option<T>) -> bool {
        &&& self.wf()
        &&& after.wf()
        &&& after.bound() == self.bound()
        &&& after.history() == self.history().push(Operation::Pop)
        &&& after@ == model::after_pop(self@)
        &&& popped == model::pop_reply(self@)
        &&& after.ring_size() == self.ring_size()
        &&& after.tail() == self.tail()
        &&& after.shadow_head() == self.shadow_head()
        &&& after.head() == (if popped is Some {
            position::ahead(self.head(), 1)
        } else {
            self.head()
        })
    }

    /// Skipping at most `n` values leads from this buffer to `after` and is answered with
    /// `skipped`.
    pub open spec fn skip_step(self, after: Self, n: nat, skipped: nat) -> bool {
        &&& self.wf()
        &&& after.wf()
        &&& after.bound() == self.bound()
        &&& after.history() == self.history().push(Operation::Skip(n))
        &&& after@ == model::after_skip(self@, n)
        &&& skipped == model::skip_count(self@, n)
        &&& after.ring_size() == self.ring_size()
        &&& after.tail() == self.tail()
        &&& after.shadow_head() == self.shadow_head()
        &&& after.head() == position::ahead(self.head(), skipped)
    }

    /// As `push_step`, for a queue of capacity `bound`: on a buffer of another capacity nothing is
    /// done.
    pub open spec fn push_step_within(
        self,
        bound: nat,
        after: Self,
        v: T,
        refused: Option<T>,
    ) -> bool {
        if self.bound() == bound {
            self.push_step(after, v, refused)
        } else {
            self.wf() && after == self && refused == Some(v)
        }
    }

    /// As `pop_step`, for a queue of capacity `bound`: on a buffer of another capacity nothing is
    /// done.
    pub open spec fn pop_step_within(self, bound: nat, after: Self, popped: Option<T>) -> bool {
        if self.bound() == bound {
            self.pop_step(after, popped)
        } else {
            self.wf() && after == self && popped == None::<T>
        }
    }

    /// As `skip_step`, for a queue of capacity `bound`: on a buffer of another capacity nothing is
    /// done.
    pub open spec fn skip_step_within(
        self,
        bound: nat,
        after: Self,
        n: nat,
        skipped: nat,
    ) -> bool {
        if self.bound() == bound {
            self.skip_step(after, n, skipped)
        } else {
            self.wf() && after == self && skipped == 0
        }
    }

    /// The size of this buffer, for a queue of capacity `bound`: a buffer of another capacity holds
    /// nothing for it.
    pub open spec fn has_size_within(self, bound: nat, size: nat) -> bool {
        &&& self.wf()
        &&& size == (if self.bound() == bound {
            self@.len()
        } else {
            0
        })
    }

    /// This is a new buffer that may hold `capacity` values: it is empty, and nothing was done to it
    /// yet.
    pub open spec fn is_new(self, capacity: nat) -> bool {
        &&& self.wf()
        &&& self.bound() == capacity
        &&& position::is_next_power_of_two(capacity, self.ring_size())
        &&& self@ == Seq::<T>::empty()
        &&& self.head() == 0 && self.shadow_tail() == 0
        &&& self.tail() == 0 && self.shadow_head() == 0
        &&& self.history() == Seq::<Operation<T>>::empty()
    }

    /// First in, first out: the values that left the buffer, followed by those that are still in it,
    /// are the values that it took in, in the order in which they were pushed.
    pub proof fn law_first_in_first_out(self)
        requires
            self.wf(),
        ensures
            model::run(self.bound(), self.history()).accepted == model::run(
                self.bound(),
                self.history(),
            ).removed + self@,
    {
        laws::law_first_in_first_out(self.bound(), self.history());
    }

    /// The buffer never holds more values than its capacity, and its ring, whose size is the next
    /// power of two, has a slot for each of them.
    pub proof fn law_within_capacity(self)
        requires
            self.wf(),
        ensures
            self@.len() <= self.bound() <= self.ring_size(),
            position::is_next_power_of_two(self.bound(), self.ring_size()),
            self@.len() == position::distance(self.head(), self.tail()),
    {
    }

    /// The shadows may lag behind, but never so that an end of the queue does what it must not:
    /// the producer counts at least the values that are in the buffer, and so never sees room that
    /// is not there; the consumer counts at most those values, and so never sees a value that is
    /// not there.
    pub proof fn law_shadows_lag_behind(self)
        requires
            self.wf(),
        ensures
            self@.len() <= position::distance(self.shadow_head(), self.tail()) <= self.bound(),
            position::distance(self.shadow_head(), self.head()) <= position::distance(
                self.shadow_head(),
                self.tail(),
            ),
            position::distance(self.head(), self.shadow_tail()) <= self@.len(),
    {
    }

    /// The slots hold the values of the queue, each in the slot of its position, and nothing else.
    /// So dropping the buffer, which drops its slots in the order in which they lie in memory, runs
    /// the destructor of every value that is still in the queue, once, and of no value that was
    /// popped or skipped.
    pub proof fn law_slots_hold_the_queue(self)
        requires
            self.wf(),
        ensures
            self.slots().len() == self.ring_size(),
            forall|k: int|
                0 <= k < self@.len() ==> self.slots()[#[trigger] position::slot_of(
                    self.head() + k,
                    self.ring_size(),
                )] == Some(self@[k]),
            forall|slot: int|
                0 <= slot < self.slots().len() && (#[trigger] self.slots()[slot]) is Some ==> exists|
                    k: int,
                |
                    0 <= k < self@.len() && #[trigger] position::slot_of(
                        self.head() + k,
                        self.ring_size(),
                    ) == slot,
            forall|i: int, j: int|
                0 <= i < j < self@.len() ==> #[trigger] position::slot_of(
                    self.head() + i,
                    self.ring_size(),
                ) != #[trigger] position::slot_of(self.head() + j, self.ring_size()),
    {
        assert forall|k: int| 0 <= k < self@.len() implies self.slots()[#[trigger] position::slot_of(
            self.head() + k,
            self.ring_size(),
        )] == Some(self@[k]) by {
            assert(self.slot_ahead(k) is Some);
        }
        assert forall|slot: int|
            0 <= slot < self.slots().len() && (#[trigger] self.slots()[slot]) is Some implies exists|
            k: int,
        |
            0 <= k < self@.len() && #[trigger] position::slot_of(self.head() + k, self.ring_size())
                == slot by {
            let k = position::lemma_slot_reached(self.head() as int, slot, self.ring_size());
            assert(self.slot_ahead(k) is Some);
        }
        assert forall|i: int, j: int| 0 <= i < j < self@.len() implies #[trigger] position::slot_of(
            self.head() + i,
            self.ring_size(),
        ) != #[trigger] position::slot_of(self.head() + j, self.ring_size()) by {
            position::lemma_slots_differ(self.head() as int, i, j, self.ring_size());
        }
    }

    /// Absolute and ever-increasing positions are interchangeable: positions that agree in their
    /// remainder by the size of the ring, such as a position and the number of its slot, stand for
    /// the same slot. A load gives the same value and leaves the same slots, and so does a store.
    pub proof fn law_positions_are_interchangeable(self, pos: usize, other: usize, v: T)
        requires
            self.wf(),
            position::slot_of(pos as int, self.ring_size()) == position::slot_of(
                other as int,
                self.ring_size(),
            ),
        ensures
            0 <= position::slot_of(pos as int, self.ring_size()) < self.slots().len(),
            self.loaded(pos) == self.loaded(other),
            self.slots_after_load(pos) == self.slots_after_load(other),
            self.slots_after_store(pos, v) == self.slots_after_store(other, v),
            position::slot_of(position::slot_of(pos as int, self.ring_size()), self.ring_size())
                == position::slot_of(pos as int, self.ring_size()),
    {
        position::lemma_mask_is_remainder(pos, self.ring_size() as usize);
        position::lemma_slot_of_slot(pos as int, self.ring_size());
    }

    /// Creates an empty buffer that may hold `capacity` values.
    pub fn new(capacity: usize) -> (created: Self)
        requires
            ring_fits::<T>(capacity as nat),
        ensures
            created.is_new(capacity as nat),
    {
        let created = Buffer {
            buffer: allocate_buffer(capacity),
            capacity,
            allocated_size: pad(capacity.next_power_of_two()),
            consumer_metadata: ConsumerMetadata { head: pad(0), shadow_tail: pad(0) },
            producer_metadata: ProducerMetadata { tail: pad(0), shadow_head: pad(0) },
            history: Ghost(Seq::empty()),
        };
        proof {
            assert forall|k: int| 0 <= k < created.ring_size() implies (
            #[trigger] created.slot_ahead(k)) is None by {
                position::lemma_mask_is_remainder(k as usize, created.ring_size() as usize);
            }
            assert(created@ =~= Seq::<T>::empty());
        }
        created
    }

    /// Returns the number of values that the buffer may hold.
    pub fn capacity(&self) -> (capacity: usize)
        ensures
            capacity == self.bound(),
        no_unwind
    {
        self.capacity
    }

    /// Returns the number of slots in the ring.
    pub fn allocated_size(&self) -> (slots: usize)
        ensures
            slots == self.ring_size(),
        no_unwind
    {
        unpad(&self.allocated_size)
    }

    /// Returns the number of values in the buffer.
    pub fn size(&self) -> (size: usize)
        requires
            self.wf(),
        ensures
            size == self@.len(),
        no_unwind
    {
        distance_between(
            unpad(&self.consumer_metadata.head),
            unpad(&self.producer_metadata.tail),
        )
    }

    /// Returns how many values can be pushed before the buffer is full.
    pub fn free_space(&self) -> (free: usize)
        requires
            self.wf(),
        ensures
            free == self.bound() - self@.len(),
        no_unwind
    {
        self.capacity() - self.size()
    }

    /// Attempts to pop a value off the buffer.
    ///
    /// If the buffer is empty, the answer is `None`. The caller may then decide what to do next.
    /// Of the counters, only the consumer's change.
    pub fn try_pop(&mut self) -> (popped: Option<T>)
        requires
            old(self).wf(),
        ensures
            final(self).wf(),
            final(self).bound() == old(self).bound(),
            final(self).ring_size() == old(self).ring_size(),
            final(self)@ == model::after_pop(old(self)@),
            popped == model::pop_reply(old(self)@),
            final(self).head() == (if popped is Some {
                position::ahead(old(self).head(), 1)
            } else {
                old(self).head()
            }),
            final(self).shadow_tail() == (if old(self).head() == old(self).shadow_tail() {
                old(self).tail()
            } else {
                old(self).shadow_tail()
            }),
            final(self).tail() == old(self).tail(),
            final(self).shadow_head() == old(self).shadow_head(),
            final(self).history() == old(self).history().push(Operation::Pop),
        no_unwind
    {
        let current_head = unpad(&self.consumer_metadata.head);

        if current_head == unpad(&self.consumer_metadata.shadow_tail) {
            self.consumer_metadata.shadow_tail = pad(unpad(&self.producer_metadata.tail));
            proof {
                lemma_same_slots(*old(self), *self);
            }
            if current_head == unpad(&self.consumer_metadata.shadow_tail) {
                self.record(Ghost(Operation::Pop));
                return None;
            }
        }
        let popped = self.take_front();
        self.record(Ghost(Operation::Pop));
        popped
    }

    /// Attempts to pop (and discard) at most `n` values off the buffer, and returns how many
    /// were skipped.
    ///
    /// *WARNING:* The values that are skipped are leaked: their destructors are not called.
    pub fn skip_n(&mut self, n: usize) -> (skipped: usize)
        requires
            old(self).wf(),
        ensures
            final(self).wf(),
            final(self).bound() == old(self).bound(),
            final(self).ring_size() == old(self).ring_size(),
            final(self)@ == model::after_skip(old(self)@, n as nat),
            skipped == model::skip_count(old(self)@, n as nat),
            final(self).head() == position::ahead(old(self).head(), skipped as nat),
            final(self).shadow_tail() == old(self).tail(),
            final(self).tail() == old(self).tail(),
            final(self).shadow_head() == old(self).shadow_head(),
            final(self).history() == old(self).history().push(Operation::Skip(n as nat)),
        no_unwind
    {
        let current_head = unpad(&self.consumer_metadata.head);

        self.consumer_metadata.shadow_tail = pad(unpad(&self.producer_metadata.tail));
        proof {
            lemma_same_slots(*old(self), *self);
        }
        if current_head == unpad(&self.consumer_metadata.shadow_tail) {
            assert(self@ =~= old(self)@.skip(0));
            self.record(Ghost(Operation::Skip(n as nat)));
            proof {
                position::lemma_ahead(current_head, 0);
            }
            return 0;
        }
        let mut diff: usize = distance_between(
            current_head,
            unpad(&self.consumer_metadata.shadow_tail),
        );
        if diff > n {
            diff = n;
        }
        let mut skipped: usize = 0;
        assert(self@ =~= old(self)@.skip(0));
        proof {
            position::lemma_ahead(current_head, 0);
        }
        while skipped < diff
            invariant
                self.layout_wf(),
                self.bound() == old(self).bound(),
                self.ring_size() == old(self).ring_size(),
                self.history == old(self).history,
                self.producer_metadata == old(self).producer_metadata,
                self.shadow_tail() == self.tail(),
                self.head() == position::ahead(old(self).head(), skipped as nat),
                skipped <= diff <= old(self)@.len(),
                self@ == old(self)@.skip(skipped as int),
            decreases diff - skipped,
        {
            assert(self@.len() > 0);
            let leaked = self.take_front();
            leak(leaked);
            proof {
                position::lemma_ahead_twice(old(self).head(), skipped as nat, 1);
            }
            skipped = skipped + 1;
            assert(self@ =~= old(self)@.skip(skipped as int));
        }
        self.record(Ghost(Operation::Skip(n as nat)));
        diff
    }

    /// Pops a value off the buffer.
    ///
    /// Nothing else can reach the buffer during the call, so on an empty buffer the wait for a
    /// value would have no end: the buffer must hold one.
    pub fn pop(&mut self) -> (v: T)
        requires
            old(self).wf(),
            old(self)@.len() > 0,
        ensures
            final(self).wf(),
            final(self).bound() == old(self).bound(),
            final(self).ring_size() == old(self).ring_size(),
            final(self)@ == old(self)@.skip(1),
            v == old(self)@[0],
            final(self).head() == position::ahead(old(self).head(), 1),
            final(self).shadow_tail() == (if old(self).head() == old(self).shadow_tail() {
                old(self).tail()
            } else {
                old(self).shadow_tail()
            }),
            final(self).tail() == old(self).tail(),
            final(self).shadow_head() == old(self).shadow_head(),
            final(self).history() == old(self).history().push(Operation::Pop),
    {
        loop
            invariant
                self.wf(),
                *self == *old(self),
                self@.len() > 0,
            decreases 0nat,
        {
            match self.try_pop() {
                None => {},
                Some(v) => return v,
            }
        }
    }

    /// Pushes a value onto the buffer.
    ///
    /// Nothing else can reach the buffer during the call, so on a full buffer the wait for room
    /// would have no end: the buffer must not be full.
    pub fn push(&mut self, v: T)
        requires
            old(self).wf(),
            old(self)@.len() < old(self).bound(),
        ensures
            final(self).wf(),
            final(self).bound() == old(self).bound(),
            final(self).ring_size() == old(self).ring_size(),
            final(self)@ == old(self)@.push(v),
            final(self).tail() == position::ahead(old(self).tail(), 1),
            final(self).shadow_head() == (if position::distance(
                old(self).shadow_head(),
                old(self).tail(),
            ) >= old(self).bound() {
                old(self).head()
            } else {
                old(self).shadow_head()
            }),
            final(self).head() == old(self).head(),
            final(self).shadow_tail() == old(self).shadow_tail(),
            final(self).history() == old(self).history().push(Operation::Push(v)),
    {
        let mut t = v;
        loop
            invariant
                self.wf(),
                *self == *old(self),
                self@.len() < self.bound(),
                t == v,
            decreases 0nat,
        {
            match self.try_push(t) {
                Some(rv) => t = rv,
                None => return,
            }
        }
    }

    /// Attempts to push a value onto the buffer.
    ///
    /// If the buffer is full, the value comes back as `Some(v)` and the buffer stays as it is.
    /// `None` means that the value was pushed. Of the counters, only the producer's change.
    pub fn try_push(&mut self, v: T) -> (refused: Option<T>)
        requires
            old(self).wf(),
        ensures
            final(self).wf(),
            final(self).bound() == old(self).bound(),
            final(self).ring_size() == old(self).ring_size(),
            final(self)@ == model::after_push(old(self)@, old(self).bound(), v),
            refused == model::push_reply(old(self)@, old(self).bound(), v),
            final(self).tail() == (if refused is None {
                position::ahead(old(self).tail(), 1)
            } else {
                old(self).tail()
            }),
            final(self).shadow_head() == (if position::distance(
                old(self).shadow_head(),
                old(self).tail(),
            ) >= old(self).bound() {
                old(self).head()
            } else {
                old(self).shadow_head()
            }),
            final(self).head() == old(self).head(),
            final(self).shadow_tail() == old(self).shadow_tail(),
            final(self).history() == old(self).history().push(Operation::Push(v)),
        no_unwind
    {
        let current_tail = unpad(&self.producer_metadata.tail);

        if distance_between(unpad(&self.producer_metadata.shadow_head), current_tail)
            >= self.capacity {
            self.producer_metadata.shadow_head = pad(unpad(&self.consumer_metadata.head));
            if distance_between(unpad(&self.producer_metadata.shadow_head), current_tail)
                >= self.capacity {
                proof {
                    lemma_same_slots(*old(self), *self);
                }
                self.record(Ghost(Operation::Push(v)));
                return Some(v);
            }
        }
        self.store(current_tail, v);
        self.producer_metadata.tail = pad(advance(current_tail, 1));
        proof {
            lemma_pushed(*old(self), *self, v);
        }
        self.record(Ghost(Operation::Push(v)));
        None
    }

    /// Adds an operation to the history.
    fn record(&mut self, Ghost(operation): Ghost<Operation<T>>)
        requires
            old(self).layout_wf(),
            old(self)@ == model::step(
                model::run(old(self).bound(), old(self).history()),
                old(self).bound(),
                operation,
            ).contents,
        ensures
            final(self).wf(),
            final(self).history() == old(self).history().push(operation),
            final(self)@ == old(self)@,
            final(self).bound() == old(self).bound(),
            final(self).ring_size() == old(self).ring_size(),
            final(self).consumer_metadata == old(self).consumer_metadata,
            final(self).producer_metadata == old(self).producer_metadata,
        no_unwind
    {
        self.history = Ghost(self.history@.push(operation));
        proof {
            model::lemma_run_push(old(self).bound(), old(self).history(), operation);
            lemma_same_slots(*old(self), *self);
        }
    }

    /// Takes the value at the front, which the consumer knows to be there.
    fn take_front(&mut self) -> (front: Option<T>)
        requires
            old(self).layout_wf(),
            old(self).head() != old(self).shadow_tail(),
        ensures
            final(self).layout_wf(),
            final(self).history == old(self).history,
            final(self).bound() == old(self).bound(),
            final(self).ring_size() == old(self).ring_size(),
            final(self).head() == position::ahead(old(self).head(), 1),
            final(self).shadow_tail() == old(self).shadow_tail(),
            final(self).producer_metadata == old(self).producer_metadata,
            old(self)@.len() > 0,
            final(self)@ == old(self)@.skip(1),
            front == Some(old(self)@[0]),
        no_unwind
    {
        let current_head = unpad(&self.consumer_metadata.head);
        let front = self.load(current_head);
        self.consumer_metadata.head = pad(advance(current_head, 1));
        proof {
            lemma_popped(*old(self), *self);
        }
        front
    }

    /// Loads a value out of the slot that a position falls on, and leaves the slot empty.
    fn load(&mut self, pos: usize) -> (loaded: Option<T>)
        requires
            old(self).ring_wf(),
        ensures
            loaded == old(self).loaded(pos),
            final(self).slots() == old(self).slots_after_load(pos),
            final(self).capacity == old(self).capacity,
            final(self).allocated_size == old(self).allocated_size,
            final(self).consumer_metadata == old(self).consumer_metadata,
            final(self).producer_metadata == old(self).producer_metadata,
            final(self).history == old(self).history,
        no_unwind
    {
        let slot = slot_index(pos, unpad(&self.allocated_size));
        let mut loaded: Option<T> = None;
        core::mem::swap(&mut self.buffer[slot], &mut loaded);
        loaded
    }

    /// Stores a value in the slot that a position falls on.
    fn store(&mut self, pos: usize, v: T)
        requires
            old(self).ring_wf(),
        ensures
            final(self).slots() == old(self).slots_after_store(pos, v),
            final(self).capacity == old(self).capacity,
            final(self).allocated_size == old(self).allocated_size,
            final(self).consumer_metadata == old(self).consumer_metadata,
            final(self).producer_metadata == old(self).producer_metadata,
            final(self).history == old(self).history,
        no_unwind
    {
        let slot = slot_index(pos, unpad(&self.allocated_size));
        self.buffer[slot] = Some(v);
    }
}

/// A ring for `capacity` values can be laid out in memory: its size is a `usize`, and its slots
/// take up no more bytes than an allocation may have.
pub open spec fn ring_fits<T>(capacity: nat) -> bool {
    &&& capacity <= position::largest_roundable()
    &&& forall|slots: nat| #[trigger]
        position::is_next_power_of_two(capacity, slots) ==> slots * vstd::layout::size_of::<
            Option<T>,
        >() <= isize::MAX
}

/// Tells whether a ring for `capacity` values can be laid out in memory.
pub fn fits<T>(capacity: usize) -> (fitting: bool)
    ensures
        fitting == ring_fits::<T>(capacity as nat),
{
    if capacity > usize::MAX / 2 + 1 {
        return false;
    }
    let slots = capacity.next_power_of_two();
    match slots.checked_mul(core::mem::size_of::<Option<T>>()) {
        Some(bytes) => bytes <= isize::MAX as usize,
        None => false,
    }
}

/// Allocates an empty ring: as many slots as the next power of two that is not below `capacity`.
pub fn allocate_buffer<T>(capacity: usize) -> (ring: Vec<Option<T>>)
    requires
        ring_fits::<T>(capacity as nat),
    ensures
        position::is_next_power_of_two(capacity as nat, ring@.len()),
        forall|slot: int| 0 <= slot < ring@.len() ==> (#[trigger] ring@[slot]) is None,
{
    let adjusted_size = capacity.next_power_of_two();
    let mut ring: Vec<Option<T>> = Vec::with_capacity(adjusted_size);
    while ring.len() < adjusted_size
        invariant
            ring@.len() <= adjusted_size,
            forall|slot: int| 0 <= slot < ring@.len() ==> (#[trigger] ring@[slot]) is None,
        decreases adjusted_size - ring@.len(),
    {
        ring.push(None);
    }
    ring
}

/// A change of the shadows alone leaves the slots and the queue as they were.
proof fn lemma_same_slots<T>(before: Buffer<T>, after: Buffer<T>)
    requires
        before.slots_wf(),
        after.buffer@ == before.buffer@,
        after.ring_size() == before.ring_size(),
        after.head() == before.head(),
        after.tail() == before.tail(),
    ensures
        after.slots_wf(),
        after@ == before@,
{
    assert forall|k: int| #[trigger] after.slot_ahead(k) == before.slot_ahead(k) by {}
    assert(after@ =~= before@);
}

/// A value in the slot of the tail, and the tail one step ahead: the value is at the back of the
/// queue.
proof fn lemma_pushed<T>(before: Buffer<T>, after: Buffer<T>, v: T)
    requires
        before.ring_wf(),
        before.slots_wf(),
        before.occupied() < before.capacity,
        after.slots() == before.slots_after_store(before.tail(), v),
        after.ring_size() == before.ring_size(),
        after.head() == before.head(),
        after.tail() == position::ahead(before.tail(), 1),
    ensures
        after.occupied() == before.occupied() + 1,
        after.slots_wf(),
        after@ == before@.push(v),
{
    let n = before.occupied();
    let size = before.ring_size();
    position::lemma_ahead(before.tail(), 1);
    position::lemma_ahead_by_distance(before.head(), before.tail());
    position::lemma_slot_ahead(before.head(), n, size as usize);
    position::lemma_mask_is_remainder(before.tail(), size as usize);
    assert(after.slot_ahead(n as int) == Some(v));
    assert forall|k: int| 0 <= k < size && k != n implies #[trigger] after.slot_ahead(k)
        == before.slot_ahead(k) by {
        position::lemma_slots_differ(before.head() as int, k, n as int, size);
    }
    assert(after@ =~= before@.push(v));
}

/// The slot of the head empty, and the head one step ahead: the value at the front of the queue is
/// gone.
proof fn lemma_popped<T>(before: Buffer<T>, after: Buffer<T>)
    requires
        before.ring_wf(),
        before.slots_wf(),
        0 < before.occupied() <= before.ring_size(),
        after.slots() == before.slots_after_load(before.head()),
        after.ring_size() == before.ring_size(),
        after.head() == position::ahead(before.head(), 1),
        after.tail() == before.tail(),
    ensures
        after.occupied() == before.occupied() - 1,
        after.slots_wf(),
        after@ == before@.skip(1),
        before.slot_ahead(0) == Some(before@[0]),
{
    let size = before.ring_size();
    position::lemma_ahead(before.head(), 1);
    position::lemma_mask_is_remainder(before.head(), size as usize);
    assert(before.slot_ahead(0) is Some);
    assert forall|k: int| 0 <= k < size implies #[trigger] after.slot_ahead(k) == (if k == size - 1 {
        None
    } else {
        before.slot_ahead(k + 1)
    }) by {
        position::lemma_wrapped_slot(before.head(), k, size as usize);
        if k < size - 1 {
            position::lemma_slots_differ(before.head() as int, k + 1, 0, size);
        } else {
            position::lemma_full_turn(before.head() as int, size);
        }
    }
    assert(after@ =~= before@.skip(1));
}

} // verus!
