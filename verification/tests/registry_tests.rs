use live_polls::registry::TopicRegistry;

#[test]
fn subscribe_then_drop_leaves_no_trace() {
    let mut reg = TopicRegistry::new();
    reg.subscribe(1, 10);
    reg.subscribe(1, 11);
    reg.subscribe(2, 10);
    reg.drop_session(1);
    assert_eq!(reg.subscribers(10), vec![2]);
    assert_eq!(reg.subscribers(11), Vec::<u64>::new());
}

#[test]
fn subscribe_is_idempotent() {
    let mut reg = TopicRegistry::new();
    reg.subscribe(7, 3);
    reg.subscribe(7, 3);
    assert_eq!(reg.subscribers(3), vec![7]);
}

#[test]
fn unsubscribe_removes_one_pair() {
    let mut reg = TopicRegistry::new();
    reg.subscribe(1, 3);
    reg.subscribe(2, 3);
    reg.unsubscribe(1, 3);
    assert_eq!(reg.subscribers(3), vec![2]);
}

#[test]
fn unsubscribe_absent_is_noop() {
    let mut reg = TopicRegistry::new();
    reg.subscribe(1, 3);
    reg.unsubscribe(9, 3);
    reg.unsubscribe(1, 99);
    assert_eq!(reg.subscribers(3), vec![1]);
}

#[test]
fn drop_unknown_session_is_noop() {
    let mut reg = TopicRegistry::new();
    reg.subscribe(1, 3);
    reg.drop_session(42);
    assert_eq!(reg.subscribers(3), vec![1]);
}
