use evno::{DrainCommand, DrainLoop, DrainSignal};

#[test]
fn a_drain_waits_for_the_tasks_then_for_the_last_handle() {
    let mut drain = DrainLoop::new();
    assert_eq!(drain.step(DrainSignal::TasksRead(2)), DrainCommand::RegisterTasks);
    assert_eq!(drain.step(DrainSignal::TasksRead(1)), DrainCommand::SleepTasks);
    assert_eq!(drain.step(DrainSignal::LastHandleGone), DrainCommand::Ignore);
    assert_eq!(drain.step(DrainSignal::TasksRead(1)), DrainCommand::RegisterTasks);
    assert_eq!(drain.step(DrainSignal::TasksRead(0)), DrainCommand::AwaitLastHandle);
    assert_eq!(drain.step(DrainSignal::TasksRead(3)), DrainCommand::Ignore);
    assert_eq!(drain.step(DrainSignal::LastHandleGone), DrainCommand::Return);
    assert_eq!(drain.step(DrainSignal::LastHandleGone), DrainCommand::Ignore);
}

#[test]
fn a_drain_with_no_task_goes_straight_to_the_last_handle() {
    let mut drain = DrainLoop::new();
    assert_eq!(drain.step(DrainSignal::TasksRead(0)), DrainCommand::AwaitLastHandle);
    assert_eq!(drain.step(DrainSignal::LastHandleGone), DrainCommand::Return);
}
