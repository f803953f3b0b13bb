use live_polls::service::PollService;
use live_polls::ChangeReason;
use live_polls::PollChangedEvent;
use live_polls::VoteError;

fn service_with_poll() -> PollService {
    let mut svc = PollService::new();
    assert!(svc.store.add_poll(1, "creator@x".to_string()));
    assert!(svc.store.add_question(10, 1));
    assert!(svc.store.add_option(100, 10));
    assert!(svc.store.add_option(101, 10));
    svc
}

#[test]
fn a_vote_notifies_subscribers_of_that_poll_only() {
    let mut svc = service_with_poll();
    assert!(svc.store.add_poll(2, "creator@x".to_string()));
    let a = svc.notifier.connect(1, 8).unwrap();
    let b = svc.notifier.connect(1, 8).unwrap();
    let q = svc.notifier.connect(2, 8).unwrap();
    let alice = "alice@x".to_string();
    assert!(svc.cast_vote(&alice, &alice, 1, 100).is_ok());
    let ev = PollChangedEvent { poll_id: 1, reason: ChangeReason::VoteCast };
    assert_eq!(svc.notifier.take_events(a).unwrap(), vec![ev]);
    assert_eq!(svc.notifier.take_events(b).unwrap(), vec![ev]);
    assert_eq!(svc.notifier.take_events(q).unwrap(), Vec::<PollChangedEvent>::new());
}

#[test]
fn a_failed_vote_publishes_nothing() {
    let mut svc = service_with_poll();
    let a = svc.notifier.connect(1, 8).unwrap();
    let alice = "alice@x".to_string();
    assert_eq!(svc.cast_vote(&alice, &alice, 1, 999), Err(VoteError::InvalidOption));
    assert_eq!(svc.notifier.take_events(a).unwrap(), Vec::<PollChangedEvent>::new());
}

#[test]
fn body_identity_must_match_the_authenticated_one() {
    let mut svc = service_with_poll();
    let alice = "alice@x".to_string();
    let bob = "bob@x".to_string();
    let r = svc.cast_vote(&alice, &bob, 1, 100);
    assert_eq!(r, Err(VoteError::IdentityMismatch));
    assert_eq!(r.unwrap_err().http_status(), 400);
    assert_eq!(svc.store.votes.len(), 0);
}

#[test]
fn close_and_reset_notify_subscribers() {
    let mut svc = service_with_poll();
    let a = svc.notifier.connect(1, 8).unwrap();
    let creator = "creator@x".to_string();
    let alice = "alice@x".to_string();
    assert!(svc.cast_vote(&alice, &alice, 1, 100).is_ok());
    assert!(svc.reset_poll(1, &creator).is_ok());
    assert!(svc.close_poll(1, &creator).is_ok());
    assert_eq!(
        svc.notifier.take_events(a).unwrap(),
        vec![
            PollChangedEvent { poll_id: 1, reason: ChangeReason::VoteCast },
            PollChangedEvent { poll_id: 1, reason: ChangeReason::Reset },
            PollChangedEvent { poll_id: 1, reason: ChangeReason::Closed },
        ]
    );
}

#[test]
fn full_flow_vote_after_close_is_rejected() {
    let mut svc = service_with_poll();
    let creator = "creator@x".to_string();
    let alice = "alice@x".to_string();
    assert!(svc.close_poll(1, &creator).is_ok());
    assert_eq!(svc.cast_vote(&alice, &alice, 1, 100), Err(VoteError::PollClosed));
}
