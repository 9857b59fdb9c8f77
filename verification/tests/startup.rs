use evno::StartupBarrier;

#[test]
fn emits_wait_until_every_registered_listener_subscribed() {
    let mut barrier = StartupBarrier::new();
    assert!(barrier.may_publish());
    let first = barrier.register();
    let second = barrier.register();
    assert_eq!((first, second), (0, 1));
    assert_eq!(barrier.issued(), 2);
    assert!(!barrier.may_publish());
    barrier.subscribed(second);
    assert!(!barrier.may_publish());
    barrier.subscribed(first);
    assert!(barrier.may_publish());
}

#[test]
fn handing_back_an_unknown_ticket_changes_nothing() {
    let mut barrier = StartupBarrier::new();
    let ticket = barrier.register();
    barrier.subscribed(ticket + 7);
    assert!(!barrier.may_publish());
    barrier.subscribed(ticket);
    barrier.subscribed(ticket);
    assert!(barrier.may_publish());
    assert_eq!(barrier.register(), 1);
}
