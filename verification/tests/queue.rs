use bounded_spsc_queue::{fits, make};

#[test]
fn test_producer_push() {
    let (p, _) = make(10);

    for i in 0..9 {
        assert!(p.push(i, 1).is_none());
        assert!(p.capacity() == 10);
        assert!(p.size() == i + 1);
    }
}

#[test]
fn test_consumer_pop() {
    let (p, c) = make(10);

    for i in 0..9 {
        assert!(p.push(i, 1).is_none());
        assert!(p.capacity() == 10);
        assert!(p.size() == i + 1);
    }

    for i in 0..9 {
        assert!(c.size() == 9 - i);
        let t = c.pop(1).unwrap();
        assert!(c.capacity() == 10);
        assert!(c.size() == 9 - i - 1);
        assert!(t == i);
    }
}

#[test]
fn test_consumer_skip() {
    let (p, c) = make(10);

    for i in 0..9 {
        assert!(p.push(i, 1).is_none());
        assert!(p.capacity() == 10);
        assert!(p.size() == i + 1);
    }
    assert!(c.size() == 9);
    assert!(c.skip_n(5) == 5);
    assert!(c.size() == 4);
    for i in 0..4 {
        assert!(c.size() == 4 - i);
        let t = c.pop(1).unwrap();
        assert!(c.capacity() == 10);
        assert!(c.size() == 4 - i - 1);
        assert!(t == i + 5);
    }
    assert!(c.size() == 0);
    assert!(c.skip_n(5) == 0);
}

#[test]
fn test_consumer_skip_whole_buf() {
    let (p, c) = make(9);

    for i in 0..9 {
        assert!(p.push(i, 1).is_none());
        assert!(p.capacity() == 9);
        assert!(p.size() == i + 1);
    }
    assert!(c.size() == 9);
    assert!(c.skip_n(9) == 9);
    assert!(c.size() == 0);
}

#[test]
fn test_try_push() {
    let (p, _) = make(10);

    for i in 0..10 {
        assert!(p.push(i, 1).is_none());
        assert!(p.capacity() == 10);
        assert!(p.size() == i + 1);
    }

    match p.try_push(10) {
        Some(v) => {
            assert!(v == 10);
        }
        None => assert!(false, "Queue should not have accepted another write!"),
    }
}

#[test]
fn test_try_poll() {
    let (p, c) = make(10);

    match c.try_pop() {
        Some(_) => assert!(false, "Queue was empty but a value was read!"),
        None => {}
    }

    assert!(p.push(123, 1).is_none());

    match c.try_pop() {
        Some(v) => assert!(v == 123),
        None => assert!(false, "Queue was not empty but poll() returned nothing!"),
    }

    match c.try_pop() {
        Some(_) => assert!(false, "Queue was empty but a value was read!"),
        None => {}
    }
}

#[test]
fn long_run_stays_in_order() {
    let (p, c) = make(500);
    let mut pushed: usize = 0;
    let mut popped: usize = 0;

    while popped < 100000 {
        for _ in 0..300 {
            if pushed < 100000 && p.try_push(pushed).is_none() {
                pushed += 1;
            }
        }
        for _ in 0..299 {
            if let Some(t) = c.try_pop() {
                assert_eq!(t, popped);
                popped += 1;
            }
        }
        assert_eq!(c.size(), pushed - popped);
    }
    assert_eq!(pushed, 100000);
    assert_eq!(c.size(), 0);
}

#[test]
fn pushed_value_is_popped_back() {
    let (p, c) = make(100);
    assert_eq!(p.push(123, 1), None);
    assert_eq!(c.pop(1), Some(123));
    assert_eq!(c.pop(1), None);
}

#[test]
fn attempts_run_out() {
    let (p, c) = make(1);
    assert_eq!(c.pop(3), None);
    assert_eq!(p.push(7, 0), Some(7));
    assert_eq!(p.size(), 0);
    assert_eq!(p.push(7, 3), None);
    assert_eq!(p.push(8, 3), Some(8));
    assert_eq!(p.size(), 1);
    assert_eq!(c.pop(0), None);
    assert_eq!(c.size(), 1);
    assert_eq!(c.pop(3), Some(7));
}

#[test]
fn capacity_stays() {
    let (p, c) = make(100);
    assert_eq!(p.capacity(), 100);
    assert_eq!(c.capacity(), 100);
    assert_eq!(p.try_push(123), None);
    assert_eq!(p.capacity(), 100);
    assert_eq!(c.try_pop(), Some(123));
    assert_eq!(c.capacity(), 100);
}

#[test]
fn free_space_is_what_fits() {
    let (p, c) = make(100);
    assert_eq!(p.size(), 0);
    assert_eq!(c.size(), 0);
    assert_eq!(p.free_space(), 100);
    assert_eq!(p.try_push(123), None);
    assert_eq!(p.size(), 1);
    assert_eq!(p.free_space(), 99);
    for i in 0..99 {
        assert_eq!(p.try_push(i), None);
    }
    assert_eq!(p.free_space(), 0);
    assert_eq!(c.size(), 100);
    assert_eq!(p.try_push(456), Some(456));
    assert_eq!(c.try_pop(), Some(123));
    assert_eq!(p.free_space(), 1);
    assert_eq!(p.try_push(456), None);
    assert_eq!(p.free_space(), 0);
}

#[test]
fn no_capacity_takes_nothing() {
    let (p, c) = make(0);
    assert_eq!(p.capacity(), 0);
    assert_eq!(p.free_space(), 0);
    assert_eq!(p.try_push(1), Some(1));
    assert_eq!(p.push(1, 5), Some(1));
    assert_eq!(c.try_pop(), None);
    assert_eq!(c.skip_n(3), 0);
}

#[test]
fn skips_no_more_than_there_is() {
    let (p, c) = make(10);
    for i in 0..4 {
        assert_eq!(p.try_push(i), None);
    }
    assert_eq!(c.skip_n(0), 0);
    assert_eq!(c.skip_n(1), 1);
    assert_eq!(c.try_pop(), Some(1));
    assert_eq!(c.skip_n(512), 2);
    assert_eq!(c.skip_n(512), 0);
}

#[test]
fn handles_can_be_sent() {
    fn sendable<S: Send>(s: S) -> S {
        s
    }
    let (p, c) = make(2);
    let (p, c) = (sendable(p), sendable(c));
    assert_eq!(p.try_push(std::cell::Cell::new(5)), None);
    assert_eq!(c.try_pop(), Some(std::cell::Cell::new(5)));
}

#[test]
fn last_handle_drops_what_is_left() {
    let value = std::rc::Rc::new(0);
    let (p, c) = make(4);
    for _ in 0..4 {
        assert!(p.try_push(value.clone()).is_none());
    }
    assert_eq!(std::rc::Rc::strong_count(&value), 5);
    assert!(c.try_pop().is_some());
    assert_eq!(std::rc::Rc::strong_count(&value), 4);
    drop(p);
    assert_eq!(std::rc::Rc::strong_count(&value), 4);
    drop(c);
    assert_eq!(std::rc::Rc::strong_count(&value), 1);
}

#[test]
fn skipped_values_are_leaked() {
    let value = std::rc::Rc::new(0);
    let (p, c) = make(4);
    for _ in 0..4 {
        assert!(p.try_push(value.clone()).is_none());
    }
    assert_eq!(c.skip_n(3), 3);
    for _ in 0..3 {
        assert!(p.try_push(value.clone()).is_none());
    }
    assert_eq!(std::rc::Rc::strong_count(&value), 8);
    drop(p);
    drop(c);
    assert_eq!(std::rc::Rc::strong_count(&value), 4);
}

#[test]
fn dropped_producer_leaves_its_values() {
    let (p, c) = make(8);
    for i in 0..5 {
        assert_eq!(p.try_push(i), None);
    }
    drop(p);
    for i in 0..5 {
        assert_eq!(c.try_pop(), Some(i));
    }
    assert_eq!(c.try_pop(), None);
    assert_eq!(c.try_pop(), None);
}

#[test]
fn dropped_consumer_leaves_the_queue() {
    let (p, c) = make(2);
    assert_eq!(p.try_push(1), None);
    drop(c);
    assert_eq!(p.size(), 1);
    assert_eq!(p.try_push(2), None);
    assert_eq!(p.try_push(3), Some(3));
}

#[test]
fn queues_are_apart() {
    let (p, c) = make(4);
    assert_eq!(p.try_push(1), None);
    let (p2, c2) = make(2);
    assert_eq!((p.size(), p.capacity()), (1, 4));
    assert_eq!((p2.size(), p2.capacity()), (0, 2));
    assert_eq!(p2.try_push(10), None);
    assert_eq!(p2.try_push(20), None);
    assert_eq!(p.try_push(2), None);
    assert_eq!(c2.skip_n(1), 1);
    assert_eq!(c.try_pop(), Some(1));
    assert_eq!(c.try_pop(), Some(2));
    assert_eq!(c.try_pop(), None);
    assert_eq!(c2.try_pop(), Some(20));
    assert_eq!(c2.try_pop(), None);
}

#[test]
fn too_large_a_ring_does_not_fit() {
    assert!(fits::<u64>(0));
    assert!(fits::<u64>(100));
    assert!(fits::<u8>(1 << 20));
    assert!(!fits::<u64>(usize::MAX / 4 + 1));
    assert!(!fits::<u8>(usize::MAX / 2 + 1));
    assert!(!fits::<u8>(usize::MAX / 2 + 2));
    assert!(!fits::<u8>(usize::MAX));
    // A slot for a reference is as large as the reference.
    let most = (isize::MAX as usize / std::mem::size_of::<&u8>() + 1) / 2;
    assert!(fits::<&u8>(most));
    assert!(!fits::<&u8>(most + 1));
}
