//! Arithmetic on ring positions.
//!
//! A position is a counter that only ever moves forward and wraps around at the width of `usize`.
//! It is turned into the number of a slot by masking with the (power of two) size of the ring, so
//! that the wrap-around of the counter falls together with a wrap-around of the ring.
use vstd::arithmetic::div_mod::{
    lemma_add_mod_noop, lemma_mod_equivalence, lemma_mod_multiples_vanish, lemma_mod_twice,
    lemma_small_mod,
};
use vstd::arithmetic::power2::{
    is_pow2, is_pow2_equiv, is_pow2_exists, lemma2_to64, lemma_pow2, lemma_pow2_adds,
    lemma_pow2_pos, lemma_pow2_strictly_increases, pow2,
};
use vstd::bits::{lemma_usize_low_bits_mask_is_mod, low_bits_mask};
use vstd::prelude::*;

verus! {

/// The number of different positions.
pub open spec fn position_count() -> int {
    usize::MAX + 1
}

/// How many steps forward lead from `from` to `to`.
pub open spec fn distance(from: usize, to: usize) -> nat {
    if from <= to {
        (to - from) as nat
    } else {
        (to - from + position_count()) as nat
    }
}

/// The position that lies `n` steps ahead of `pos`.
pub open spec fn ahead(pos: usize, n: nat) -> usize {
    ((pos + n) % position_count()) as usize
}

/// The slot that a position falls on, in a ring of `size` slots. The position may also be given
/// as an unbounded integer.
pub open spec fn slot_of(pos: int, size: nat) -> int {
    pos % (size as int)
}

/// `size` is the smallest power of two that is not below `n`.
pub open spec fn is_next_power_of_two(n: nat, size: nat) -> bool {
    &&& is_pow2(size as int)
    &&& n <= size
    &&& forall|other: int| #[trigger] is_pow2(other) && n <= other ==> size <= other
}

/// The largest number that has a next power of two within `usize`.
pub open spec fn largest_roundable() -> nat {
    (usize::MAX / 2 + 1) as nat
}

/// `usize::next_power_of_two`: the smallest power of two greater than or equal to the number.
/// Numbers whose next power of two does not fit into a `usize` are left out: for them the function
/// panics, or returns zero where overflow checks are off.
pub assume_specification[ usize::next_power_of_two ](n: usize) -> (size: usize)
    requires
        n <= largest_roundable(),
    ensures
        is_next_power_of_two(n as nat, size as nat),
;

/// Counts the steps from one position to another. This is a wrapping subtraction, written out so
/// that it is seen not to unwind.
pub fn distance_between(from: usize, to: usize) -> (steps: usize)
    ensures
        steps == distance(from, to),
    no_unwind
{
    if from <= to {
        to - from
    } else {
        usize::MAX - from + to + 1
    }
}

/// Moves a position forward. This is a wrapping addition, written out so that it is seen not to
/// unwind.
pub fn advance(pos: usize, n: usize) -> (moved: usize)
    ensures
        moved == ahead(pos, n as nat),
        distance(pos, moved) == n,
    no_unwind
{
    proof {
        lemma_ahead(pos, n as nat);
    }
    if n <= usize::MAX - pos {
        pos + n
    } else {
        n - (usize::MAX - pos) - 1
    }
}

/// Finds the slot that a position falls on, in a ring whose size is a power of two.
pub fn slot_index(pos: usize, size: usize) -> (slot: usize)
    requires
        is_pow2(size as int),
    ensures
        slot == slot_of(pos as int, size as nat),
        slot < size,
    no_unwind
{
    proof {
        lemma_mask_is_remainder(pos, size);
    }
    pos & (size - 1)
}

/// A position wraps around at most once on the way ahead.
pub proof fn lemma_ahead(pos: usize, n: nat)
    requires
        n <= usize::MAX,
    ensures
        ahead(pos, n) == (if pos + n <= usize::MAX { pos + n } else { pos + n - position_count() }),
{
    let m = position_count();
    if pos + n < m {
        lemma_small_mod((pos + n) as nat, m as nat);
    } else {
        lemma_mod_multiples_vanish(1, pos + n - m, m);
        lemma_small_mod((pos + n - m) as nat, m as nat);
    }
}

/// Moving forward twice is moving forward by the sum.
pub proof fn lemma_ahead_twice(pos: usize, n: nat, more: nat)
    requires
        n + more <= usize::MAX,
    ensures
        ahead(ahead(pos, n), more) == ahead(pos, n + more),
{
    lemma_ahead(pos, n);
    lemma_ahead(pos, n + more);
    lemma_ahead(ahead(pos, n), more);
}

/// A power of two that fits into a `usize` is `pow2` of an exponent below the width of `usize`.
proof fn lemma_exponent(size: usize) -> (e: nat)
    requires
        is_pow2(size as int),
    ensures
        e < usize::BITS,
        pow2(e) == size,
{
    is_pow2_equiv(size as int);
    assert(is_pow2_exists(size as int));
    let e = choose|i: nat| vstd::arithmetic::power::pow(2, i) == size as int;
    lemma_pow2(e);
    lemma_width();
    if e >= usize::BITS {
        if e > usize::BITS {
            lemma_pow2_strictly_increases(usize::BITS as nat, e);
        }
    }
    e
}

/// There are as many positions as the width of `usize` gives.
proof fn lemma_width()
    ensures
        pow2(usize::BITS as nat) == position_count(),
{
    lemma2_to64();
}

/// Masking a position with one less than the size of the ring is taking the remainder.
pub proof fn lemma_mask_is_remainder(pos: usize, size: usize)
    requires
        is_pow2(size as int),
    ensures
        size > 0,
        pos & ((size - 1) as usize) == slot_of(pos as int, size as nat),
        0 <= slot_of(pos as int, size as nat) < size,
{
    let e = lemma_exponent(size);
    lemma_pow2_pos(e);
    assert(low_bits_mask(e) == size - 1);
    lemma_usize_low_bits_mask_is_mod(pos, e);
}

/// The counter wraps around where the ring does: the slot of a position that wrapped is the slot
/// that it would have without wrapping.
pub proof fn lemma_slot_ahead(pos: usize, n: nat, size: usize)
    requires
        is_pow2(size as int),
        n <= usize::MAX,
    ensures
        slot_of(ahead(pos, n) as int, size as nat) == slot_of(pos + n, size as nat),
{
    let e = lemma_exponent(size);
    lemma_pow2_pos(e);
    lemma_width();
    let rest = (usize::BITS - e) as nat;
    lemma_pow2_adds(e, rest);
    assert(position_count() == size * pow2(rest));
    lemma_ahead(pos, n);
    if pos + n > usize::MAX {
        lemma_mod_multiples_vanish(pow2(rest) as int, pos + n - position_count(), size as int);
        assert(size * pow2(rest) + (pos + n - position_count()) == pos + n);
    }
}

/// The slot `k` steps ahead of the next position is the slot `k + 1` steps ahead of this one.
pub proof fn lemma_wrapped_slot(pos: usize, k: int, size: usize)
    requires
        is_pow2(size as int),
    ensures
        slot_of(ahead(pos, 1) + k, size as nat) == slot_of(pos + (k + 1), size as nat),
{
    let m = size as int;
    lemma_mask_is_remainder(pos, size);
    lemma_slot_ahead(pos, 1, size);
    lemma_add_mod_noop(ahead(pos, 1) as int, k, m);
    lemma_add_mod_noop(pos + 1, k, m);
    assert(pos + (k + 1) == pos + 1 + k);
}

/// One turn of the ring leads back to the slot that it started from.
pub proof fn lemma_full_turn(pos: int, size: nat)
    requires
        size > 0,
    ensures
        slot_of(pos + size, size) == slot_of(pos, size),
{
    lemma_mod_multiples_vanish(1, pos, size as int);
    assert(size as int * 1 + pos == pos + size);
}

/// The number of a slot, taken as a position, falls on that slot.
pub proof fn lemma_slot_of_slot(pos: int, size: nat)
    requires
        size > 0,
    ensures
        slot_of(slot_of(pos, size), size) == slot_of(pos, size),
{
    lemma_mod_twice(pos, size as int);
}

/// Two positions less than a ring apart fall on different slots.
pub proof fn lemma_slots_differ(pos: int, i: int, j: int, size: nat)
    requires
        0 <= i < size,
        0 <= j < size,
        i != j,
    ensures
        slot_of(pos + i, size) != slot_of(pos + j, size),
{
    if slot_of(pos + i, size) == slot_of(pos + j, size) {
        let m = size as int;
        let gap = if i < j { j - i } else { i - j };
        lemma_mod_equivalence(pos + i, pos + j, m);
        lemma_mod_equivalence(pos + j, pos + i, m);
        lemma_small_mod(gap as nat, size);
    }
}

/// Every slot is the slot of a position less than a ring ahead.
pub proof fn lemma_slot_reached(pos: int, slot: int, size: nat) -> (k: int)
    requires
        0 <= slot < size,
    ensures
        0 <= k < size,
        slot_of(pos + k, size) == slot,
{
    let m = size as int;
    let k = (slot - pos) % m;
    lemma_add_mod_noop(pos, slot - pos, m);
    lemma_add_mod_noop(pos, k, m);
    lemma_mod_twice(slot - pos, m);
    lemma_small_mod(slot as nat, size);
    k
}

/// Walking the distance between two positions leads from the one to the other.
pub proof fn lemma_ahead_by_distance(from: usize, to: usize)
    ensures
        distance(from, to) <= usize::MAX,
        ahead(from, distance(from, to)) == to,
{
    lemma_ahead(from, distance(from, to));
}

} // verus!
