use bounded_spsc_queue::waiting::{after_pop_attempt, after_push_attempt, PopWait, PushWait};

#[test]
fn refused_push_is_tried_again_while_attempts_are_left() {
    assert!(matches!(after_push_attempt::<i32>(None, 0), PushWait::Done));
    assert!(matches!(after_push_attempt::<i32>(None, 3), PushWait::Done));
    assert!(matches!(after_push_attempt(Some(7), 3), PushWait::Retry(7)));
    assert!(matches!(after_push_attempt(Some(7), 0), PushWait::GiveUp(7)));
}

#[test]
fn empty_pop_is_tried_again_while_attempts_are_left() {
    assert!(matches!(after_pop_attempt(Some(7), 0), PopWait::Done(7)));
    assert!(matches!(after_pop_attempt(Some(7), 3), PopWait::Done(7)));
    assert!(matches!(after_pop_attempt::<i32>(None, 3), PopWait::Retry));
    assert!(matches!(after_pop_attempt::<i32>(None, 0), PopWait::GiveUp));
}
