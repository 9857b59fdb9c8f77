use evno::{all_released, is_last_handle, release_wakes_waiters, wait_step, WaitAction, WaitPhase};

#[test]
fn only_the_last_release_wakes_waiters() {
    assert!(release_wakes_waiters(1));
    assert!(!release_wakes_waiters(2));
    assert!(!release_wakes_waiters(0));
    assert!(!release_wakes_waiters(i64::MIN));
}

#[test]
fn waiting_ends_at_zero() {
    assert!(all_released(0));
    assert!(!all_released(3));
}

#[test]
fn only_the_last_handle_drains() {
    assert!(is_last_handle(1));
    assert!(!is_last_handle(2));
}

#[test]
fn a_waiter_registers_rechecks_then_sleeps() {
    let mut phase = WaitPhase::Checking;
    let mut actions = Vec::new();
    for observed in [3i64, 3, 2, 1, 0] {
        let (next, action) = wait_step(phase, observed);
        phase = next;
        actions.push(action);
    }
    assert_eq!(
        actions,
        vec![
            WaitAction::Register,
            WaitAction::Park,
            WaitAction::Register,
            WaitAction::Park,
            WaitAction::Done
        ]
    );
    assert_eq!(phase, WaitPhase::Checking);
}

#[test]
fn a_release_between_the_reads_ends_the_wait_before_sleeping() {
    let (phase, action) = wait_step(WaitPhase::Checking, 1);
    assert_eq!(action, WaitAction::Register);
    let (_, action) = wait_step(phase, 0);
    assert_eq!(action, WaitAction::Done);
    assert_eq!(wait_step(WaitPhase::Checking, 0).1, WaitAction::Done);
}
