use live_polls::notifier::Notifier;
use live_polls::ChangeReason;
use live_polls::PollChangedEvent;

#[test]
fn publish_reaches_all_subscribers_and_nobody_else() {
    let mut n = Notifier::new();
    let a = n.connect(5, 8).unwrap();
    let b = n.connect(5, 8).unwrap();
    let c = n.connect(6, 8).unwrap();
    n.publish(5, ChangeReason::VoteCast);
    let ev = PollChangedEvent { poll_id: 5, reason: ChangeReason::VoteCast };
    assert_eq!(n.take_events(a).unwrap(), vec![ev]);
    assert_eq!(n.take_events(b).unwrap(), vec![ev]);
    assert_eq!(n.take_events(c).unwrap(), Vec::<PollChangedEvent>::new());
}

#[test]
fn events_arrive_in_publish_order() {
    let mut n = Notifier::new();
    let a = n.connect(9, 8).unwrap();
    n.publish(9, ChangeReason::VoteCast);
    n.publish(9, ChangeReason::Closed);
    n.publish(9, ChangeReason::Reset);
    let got = n.take_events(a).unwrap();
    assert_eq!(
        got,
        vec![
            PollChangedEvent { poll_id: 9, reason: ChangeReason::VoteCast },
            PollChangedEvent { poll_id: 9, reason: ChangeReason::Closed },
            PollChangedEvent { poll_id: 9, reason: ChangeReason::Reset },
        ]
    );
    assert_eq!(n.take_events(a).unwrap(), Vec::<PollChangedEvent>::new());
}

#[test]
fn stalled_session_does_not_block_the_others() {
    let mut n = Notifier::new();
    let stalled = n.connect(4, 1).unwrap();
    let healthy = n.connect(4, 8).unwrap();
    n.publish(4, ChangeReason::VoteCast);
    n.publish(4, ChangeReason::VoteCast);
    n.publish(4, ChangeReason::Closed);
    let ev = PollChangedEvent { poll_id: 4, reason: ChangeReason::VoteCast };
    let closed = PollChangedEvent { poll_id: 4, reason: ChangeReason::Closed };
    // The stalled queue held one delivery and dropped the rest.
    assert_eq!(n.take_events(stalled).unwrap(), vec![ev]);
    // The healthy subscriber still received every event, in order.
    assert_eq!(n.take_events(healthy).unwrap(), vec![ev, ev, closed]);
}

#[test]
fn disconnect_removes_the_session() {
    let mut n = Notifier::new();
    let a = n.connect(2, 8).unwrap();
    let b = n.connect(2, 8).unwrap();
    n.disconnect(a);
    n.publish(2, ChangeReason::VoteCast);
    assert!(n.take_events(a).is_none());
    assert_eq!(n.take_events(b).unwrap().len(), 1);
}

#[test]
fn session_ids_are_never_reused() {
    let mut n = Notifier::new();
    let a = n.connect(1, 4).unwrap();
    n.disconnect(a);
    let b = n.connect(1, 4).unwrap();
    assert_ne!(a, b);
}

#[test]
fn resubscribe_moves_interest() {
    let mut n = Notifier::new();
    let a = n.connect(1, 4).unwrap();
    assert!(n.subscribe(a, 2));
    n.unsubscribe(a, 1);
    n.publish(1, ChangeReason::VoteCast);
    n.publish(2, ChangeReason::Closed);
    assert_eq!(
        n.take_events(a).unwrap(),
        vec![PollChangedEvent { poll_id: 2, reason: ChangeReason::Closed }]
    );
    // Subscribing an unknown session reports it and changes nothing.
    assert!(!n.subscribe(999, 2));
}
