use composable::delay::{Delay, DelayState, Poll};
use composable::reactor::{Instant, Reactor};

#[test]
fn reactor_fires_due_entries_in_deadline_order() {
    let mut reactor = Reactor::new();
    reactor.add(Instant::from_ticks(30), 3);
    reactor.add(Instant::from_ticks(10), 1);
    reactor.add(Instant::from_ticks(20), 2);
    reactor.add(Instant::from_ticks(10), 4);

    assert_eq!(reactor.fire(Instant::from_ticks(5)), Vec::<u64>::new());
    assert_eq!(reactor.len(), 4);
    assert_eq!(reactor.fire(Instant::from_ticks(20)), vec![1, 4, 2]);
    assert_eq!(reactor.len(), 1);
    assert_eq!(reactor.fire(Instant::from_ticks(100)), vec![3]);
    assert_eq!(reactor.len(), 0);
}

#[test]
fn delay_resolves_exactly_once() {
    let mut reactor = Reactor::new();
    let mut delay = Delay::new(Instant::from_ticks(50));
    assert_eq!(delay.state(), DelayState::New(Instant::from_ticks(50)));

    assert_eq!(delay.poll_next(1, 77, &mut reactor), Poll::Pending);
    assert_eq!(reactor.len(), 1);
    assert_eq!(delay.poll_next(2, 77, &mut reactor), Poll::Pending);
    assert_eq!(delay.state(), DelayState::Waiting(2));
    assert_eq!(reactor.len(), 1);

    // before the instant, nothing fires and the delay stays pending
    assert!(reactor.fire(Instant::from_ticks(49)).is_empty());
    assert_eq!(delay.poll_next(3, 77, &mut reactor), Poll::Pending);

    // after the instant, the reactor hands out the key and the delay is woken
    assert_eq!(reactor.fire(Instant::from_ticks(50)), vec![77]);
    assert_eq!(delay.wake(), Some(3));
    assert_eq!(delay.state(), DelayState::Ready);

    assert_eq!(delay.poll_next(4, 77, &mut reactor), Poll::Item);
    assert_eq!(delay.poll_next(5, 77, &mut reactor), Poll::Finished);
    assert_eq!(delay.poll_next(6, 77, &mut reactor), Poll::Finished);
    assert_eq!(delay.state(), DelayState::Done);
    assert_eq!(delay.wake(), None);
    assert_eq!(reactor.len(), 0);
}

#[test]
fn waking_a_new_delay_changes_nothing() {
    let mut delay = Delay::new(Instant::from_ticks(1));
    assert_eq!(delay.wake(), None);
    assert_eq!(delay.state(), DelayState::New(Instant::from_ticks(1)));
}
