use evno::{cancel_when, CancelToken, Command, ListenerLoop, Signal, Stage, WithTimes};
use tokio_util::sync::CancellationToken;

/// Drives a task through `signals` and writes the hooks it runs into a log,
/// the way the task loop of the bus does.
fn drive(signals: &[Signal], events: &[u32]) -> (Vec<String>, ListenerLoop) {
    let mut task = ListenerLoop::new();
    let mut log = Vec::new();
    let mut next_event = 0;
    for signal in signals {
        match task.step(*signal) {
            Command::Begin => log.push("begin".to_string()),
            Command::Handle => {
                log.push(format!("handle:{}", events[next_event]));
                next_event += 1;
            }
            Command::After => log.push("after".to_string()),
            Command::AwaitEvent | Command::Exit | Command::Ignore => {}
        }
    }
    (log, task)
}

#[test]
fn test_lifecycle_order_on_normal_completion() {
    let signals = [
        Signal::Start,
        Signal::Began { cancelled: false },
        Signal::Received,
        Signal::Handled { cancelled: false },
        Signal::StreamEnded,
        Signal::Ended,
    ];
    let (log, task) = drive(&signals, &[42]);
    assert_eq!(log, vec!["begin", "handle:42", "after"]);
    assert!(task.is_finished());
}

#[test]
fn test_lifecycle_on_cancellation() {
    let signals = [
        Signal::Start,
        Signal::Began { cancelled: false },
        Signal::CancelFired,
        Signal::Ended,
    ];
    let (log, task) = drive(&signals, &[]);
    assert_eq!(log, vec!["begin", "after"]);
    assert!(task.is_finished());
}

#[test]
fn test_cancellation_token_passed_to_listener_is_functional() {
    // The listener cancels its own token while handling event 100.
    let signals = [
        Signal::Start,
        Signal::Began { cancelled: false },
        Signal::Received,
        Signal::Handled { cancelled: true },
        Signal::Ended,
    ];
    let (log, task) = drive(&signals, &[100]);
    assert_eq!(log, vec!["begin", "handle:100", "after"]);
    assert!(task.is_finished());
}

#[test]
fn step_commands_follow_the_hooks() {
    let mut task = ListenerLoop::new();
    assert_eq!(task.stage(), Stage::Created);
    assert_eq!(task.step(Signal::Start), Command::Begin);
    assert_eq!(task.stage(), Stage::Beginning);
    assert_eq!(task.step(Signal::Began { cancelled: false }), Command::AwaitEvent);
    assert_eq!(task.stage(), Stage::Listening);
    assert_eq!(task.step(Signal::Received), Command::Handle);
    assert_eq!(task.stage(), Stage::Handling);
    assert_eq!(task.step(Signal::Handled { cancelled: false }), Command::AwaitEvent);
    assert_eq!(task.step(Signal::StreamEnded), Command::After);
    assert_eq!(task.stage(), Stage::Finishing);
    assert_eq!(task.step(Signal::Ended), Command::Exit);
    assert_eq!(task.stage(), Stage::Finished);
}

#[test]
fn cancellation_seen_after_begin_skips_every_event() {
    let signals = [
        Signal::Start,
        Signal::Began { cancelled: true },
        Signal::Received,
        Signal::Handled { cancelled: false },
        Signal::Ended,
    ];
    let (log, task) = drive(&signals, &[1, 2]);
    assert_eq!(log, vec!["begin", "after"]);
    assert!(task.is_finished());
}

#[test]
fn out_of_place_signals_are_ignored() {
    let mut task = ListenerLoop::new();
    assert_eq!(task.step(Signal::Received), Command::Ignore);
    assert_eq!(task.stage(), Stage::Created);
    assert_eq!(task.step(Signal::Start), Command::Begin);
    assert_eq!(task.step(Signal::Start), Command::Ignore);
    assert_eq!(task.step(Signal::Ended), Command::Ignore);
    assert_eq!(task.stage(), Stage::Beginning);
    task.step(Signal::Began { cancelled: false });
    assert_eq!(task.step(Signal::Handled { cancelled: true }), Command::Ignore);
    assert_eq!(task.step(Signal::CancelFired), Command::After);
    assert_eq!(task.step(Signal::CancelFired), Command::Ignore);
    assert_eq!(task.step(Signal::Ended), Command::Exit);
    assert_eq!(task.step(Signal::Start), Command::Ignore);
    assert!(task.is_finished());
}

/// Runs a task whose listener is limited to `times` events and counts how
/// many of `offered` events it handles.
fn handled_with_limit(times: usize, offered: usize) -> usize {
    let mut limit = WithTimes::<u32, ()>::new(times, ());
    let mut token = CancelToken::new(CancellationToken::new());
    let mut task = ListenerLoop::new();
    let mut handled = 0;
    let mut command = task.step(Signal::Start);
    assert_eq!(command, Command::Begin);
    command = task.step(Signal::Began { cancelled: false });
    let mut remaining = offered;
    loop {
        match command {
            Command::AwaitEvent => {
                if remaining > 0 {
                    remaining -= 1;
                    command = task.step(Signal::Received);
                } else {
                    command = task.step(Signal::StreamEnded);
                }
            }
            Command::Handle => {
                handled += 1;
                let reached = limit.record_event();
                cancel_when(reached, &mut token);
                command = task.step(token.handled_signal());
            }
            Command::After => command = task.step(Signal::Ended),
            Command::Exit => break,
            Command::Begin | Command::Ignore => panic!("unexpected command"),
        }
    }
    handled
}

#[test]
fn once_and_many_over_five_events_handle_four() {
    let total = handled_with_limit(1, 5) + handled_with_limit(3, 5);
    assert_eq!(total, 4);
}

#[test]
fn limited_listener_handles_fewer_events_when_fewer_come() {
    assert_eq!(handled_with_limit(10, 4), 4);
    assert_eq!(handled_with_limit(3, 3), 3);
    assert_eq!(handled_with_limit(2, 0), 0);
}
