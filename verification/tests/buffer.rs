use bounded_spsc_queue::buffer::{allocate_buffer, Buffer};
use bounded_spsc_queue::position::{advance, distance_between, slot_index};

#[test]
fn ring_is_the_next_power_of_two() {
    assert_eq!(Buffer::<u8>::new(0).allocated_size(), 1);
    assert_eq!(Buffer::<u8>::new(1).allocated_size(), 1);
    assert_eq!(Buffer::<u8>::new(2).allocated_size(), 2);
    assert_eq!(Buffer::<u8>::new(9).allocated_size(), 16);
    assert_eq!(Buffer::<u8>::new(10).allocated_size(), 16);
    assert_eq!(Buffer::<u8>::new(16).allocated_size(), 16);
    assert_eq!(Buffer::<u8>::new(17).allocated_size(), 32);
    let ring: Vec<Option<u8>> = allocate_buffer(100);
    assert_eq!(ring.len(), 128);
    assert!(ring.iter().all(|slot| slot.is_none()));
}

#[test]
fn full_buffer_gives_the_value_back() {
    let mut b = Buffer::new(3);
    assert_eq!(b.capacity(), 3);
    for i in 0..3 {
        assert_eq!(b.free_space(), 3 - i);
        assert_eq!(b.try_push(i), None);
        assert_eq!(b.size(), i + 1);
    }
    assert_eq!(b.try_push(7), Some(7));
    assert_eq!(b.size(), 3);
    assert_eq!(b.try_pop(), Some(0));
    assert_eq!(b.try_push(7), None);
    assert_eq!(b.try_pop(), Some(1));
    assert_eq!(b.try_pop(), Some(2));
    assert_eq!(b.try_pop(), Some(7));
    assert_eq!(b.try_pop(), None);
}

#[test]
fn push_and_pop_go_round_the_ring() {
    let mut b = Buffer::new(5);
    for lap in 0..1000 {
        for i in 0..5 {
            b.push(5 * lap + i);
        }
        for i in 0..5 {
            assert_eq!(b.pop(), 5 * lap + i);
        }
        assert_eq!(b.size(), 0);
    }
}

#[test]
fn skipping_is_popping() {
    let mut skipped = Buffer::new(6);
    let mut popped = Buffer::new(6);
    for i in 0..6 {
        skipped.push(i);
        popped.push(i);
    }
    assert_eq!(skipped.skip_n(4), 4);
    for _ in 0..4 {
        popped.pop();
    }
    assert_eq!(skipped.try_pop(), popped.try_pop());
    assert_eq!(skipped.size(), 1);
    assert_eq!(skipped.skip_n(4), 1);
    assert_eq!(skipped.skip_n(4), 0);
}

#[test]
fn dropped_buffer_drops_its_values() {
    let value = std::rc::Rc::new(0);
    let mut b = Buffer::new(3);
    b.push(value.clone());
    b.push(value.clone());
    drop(b.pop());
    assert_eq!(std::rc::Rc::strong_count(&value), 2);
    drop(b);
    assert_eq!(std::rc::Rc::strong_count(&value), 1);
}

#[test]
fn positions_wrap_around() {
    assert_eq!(advance(5, 3), 8);
    assert_eq!(advance(usize::MAX, 1), 0);
    assert_eq!(advance(usize::MAX - 1, 5), 3);
    assert_eq!(distance_between(5, 8), 3);
    assert_eq!(distance_between(usize::MAX, 2), 3);
    assert_eq!(distance_between(8, 8), 0);
}

#[test]
fn slots_wrap_around_with_positions() {
    assert_eq!(slot_index(21, 16), 5);
    assert_eq!(slot_index(usize::MAX, 16), 15);
    assert_eq!(slot_index(advance(usize::MAX, 1), 16), 0);
    assert_eq!(slot_index(77, 1), 0);
}

#[test]
fn pushed_value_comes_out_last() {
    let mut b = Buffer::new(4);
    for i in 0..3 {
        b.push(i);
    }
    b.push(99);
    assert_eq!(b.skip_n(3), 3);
    assert_eq!(b.try_pop(), Some(99));
    assert_eq!(b.try_pop(), None);
}

#[test]
fn push_and_pop_commute() {
    let mut first = Buffer::new(3);
    let mut second = Buffer::new(3);
    for i in 0..2 {
        first.push(i);
        second.push(i);
    }
    assert_eq!(first.try_push(9), None);
    assert_eq!(first.try_pop(), Some(0));
    assert_eq!(second.try_pop(), Some(0));
    assert_eq!(second.try_push(9), None);
    for expected in [Some(1), Some(9), None] {
        assert_eq!(first.try_pop(), expected);
        assert_eq!(second.try_pop(), expected);
    }
}

#[test]
fn ends_that_lag_behind_stay_in_order() {
    let mut b = Buffer::new(3);
    b.push(0);
    b.push(1);
    assert_eq!(b.pop(), 0);
    b.push(2);
    b.push(3);
    assert_eq!(b.try_push(4), Some(4));
    assert_eq!(b.pop(), 1);
    assert_eq!(b.pop(), 2);
    b.push(4);
    b.push(5);
    assert_eq!(b.try_push(6), Some(6));
    assert_eq!(b.skip_n(1), 1);
    assert_eq!(b.pop(), 4);
    assert_eq!(b.pop(), 5);
    assert_eq!(b.try_pop(), None);
}

#[test]
fn equal_remainders_are_one_slot() {
    for pos in [0, 5, 15, 16, 21, usize::MAX] {
        let absolute = slot_index(pos, 16);
        assert_eq!(absolute, pos % 16);
        assert_eq!(slot_index(absolute, 16), absolute);
        assert_eq!(slot_index(advance(pos, 16), 16), absolute);
    }
}

#[test]
fn pops_give_the_queue_in_order() {
    let mut b = Buffer::new(4);
    for i in 0..3 {
        b.push(i);
    }
    for expected in [Some(0), Some(1), Some(2), None, None] {
        assert_eq!(b.try_pop(), expected);
    }
}
