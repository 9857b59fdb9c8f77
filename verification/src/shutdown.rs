//! Draining a bus: wait until no listener task runs and the last handle is gone.
//!
//! The draining handle registers for the last-handle signal and gives itself
//! up; it then waits on the task counter with the wait protocol of
//! [`crate::gate::wait_step`], and once it has read a zero count it waits for
//! the last handle to be dropped before it returns.
use vstd::prelude::*;
use crate::gate::{wait_step, wait_transition, WaitAction, WaitPhase};

verus! {

/// Where a drain stands.
#[derive(Debug, Clone, Copy, PartialEq, Eq, Structural)]
pub enum DrainStage {
    /// Waiting for the task counter to reach zero.
    Tasks(WaitPhase),
    /// The task counter was read as zero; waiting for the last handle to go.
    LastHandle,
    /// The drain has returned.
    Returned,
}

/// What the drain observed since its last command.
#[derive(Debug, Clone, Copy, PartialEq, Eq, Structural)]
pub enum DrainSignal {
    /// The task counter was read with this value.
    TasksRead(i64),
    /// The last handle of the bus was dropped.
    LastHandleGone,
}

/// What the drain must do next.
#[derive(Debug, Clone, Copy, PartialEq, Eq, Structural)]
pub enum DrainCommand {
    /// Register for the task counter's wake-up, then read the counter again.
    RegisterTasks,
    /// Sleep until the task counter's wake-up, then read the counter again.
    SleepTasks,
    /// Wait until the last handle is dropped.
    AwaitLastHandle,
    /// Return from the drain.
    Return,
    /// The signal does not fit the current stage; nothing to do.
    Ignore,
}

/// One step of a drain.
pub open spec fn drain_transition(stage: DrainStage, signal: DrainSignal) -> (DrainStage, DrainCommand) {
    match stage {
        DrainStage::Tasks(phase) => match signal {
            DrainSignal::TasksRead(observed) => {
                let (next, action) = wait_transition(phase, observed);
                match action {
                    WaitAction::Done => (DrainStage::LastHandle, DrainCommand::AwaitLastHandle),
                    WaitAction::Register => (DrainStage::Tasks(next), DrainCommand::RegisterTasks),
                    WaitAction::Park => (DrainStage::Tasks(next), DrainCommand::SleepTasks),
                }
            },
            DrainSignal::LastHandleGone => (stage, DrainCommand::Ignore),
        },
        DrainStage::LastHandle => match signal {
            DrainSignal::LastHandleGone => (DrainStage::Returned, DrainCommand::Return),
            DrainSignal::TasksRead(_) => (stage, DrainCommand::Ignore),
        },
        DrainStage::Returned => (stage, DrainCommand::Ignore),
    }
}

/// The state machine of one drain.
pub struct DrainLoop {
    stage: DrainStage,
}

impl View for DrainLoop {
    type V = DrainStage;

    closed spec fn view(&self) -> DrainStage {
        self.stage
    }
}

impl DrainLoop {
    /// A drain about to read the task counter for the first time.
    pub fn new() -> (r: DrainLoop)
        ensures
            r@ == DrainStage::Tasks(WaitPhase::Checking),
    {
        DrainLoop { stage: DrainStage::Tasks(WaitPhase::Checking) }
    }

    /// Feeds one observation and returns the command to perform.
    pub fn step(&mut self, signal: DrainSignal) -> (c: DrainCommand)
        ensures
            (final(self)@, c) == drain_transition(old(self)@, signal),
            old(self)@ is Tasks && signal is TasksRead && signal->TasksRead_0 != 0 ==> (c
                == DrainCommand::RegisterTasks || c == DrainCommand::SleepTasks),
            old(self)@ is Tasks && signal is TasksRead && signal->TasksRead_0 != 0 ==> final(self)@ is Tasks,
            old(self)@ is Tasks && signal == DrainSignal::TasksRead(0) ==> c
                == DrainCommand::AwaitLastHandle && final(self)@ == DrainStage::LastHandle,
            c == DrainCommand::Return ==> old(self)@ == DrainStage::LastHandle && signal
                == DrainSignal::LastHandleGone,
    {
        let (next, command) = match self.stage {
            DrainStage::Tasks(phase) => match signal {
                DrainSignal::TasksRead(observed) => {
                    let (next, action) = wait_step(phase, observed);
                    match action {
                        WaitAction::Done => (DrainStage::LastHandle, DrainCommand::AwaitLastHandle),
                        WaitAction::Register => (DrainStage::Tasks(next), DrainCommand::RegisterTasks),
                        WaitAction::Park => (DrainStage::Tasks(next), DrainCommand::SleepTasks),
                    }
                },
                DrainSignal::LastHandleGone => (DrainStage::Tasks(phase), DrainCommand::Ignore),
            },
            DrainStage::LastHandle => match signal {
                DrainSignal::LastHandleGone => (DrainStage::Returned, DrainCommand::Return),
                DrainSignal::TasksRead(_) => (DrainStage::LastHandle, DrainCommand::Ignore),
            },
            DrainStage::Returned => (DrainStage::Returned, DrainCommand::Ignore),
        };
        self.stage = next;
        command
    }
}

/// The stage of a drain after the signals `signals`.
pub open spec fn drain_stage_after(signals: Seq<DrainSignal>) -> DrainStage
    decreases signals.len(),
{
    if signals.len() == 0 {
        DrainStage::Tasks(WaitPhase::Checking)
    } else {
        drain_transition(drain_stage_after(signals.drop_last()), signals.last()).0
    }
}

/// The command answered to the `i`-th signal of a drain.
pub open spec fn drain_command_at(signals: Seq<DrainSignal>, i: int) -> DrainCommand {
    drain_transition(drain_stage_after(signals.take(i)), signals[i]).1
}

spec fn drain_rank(stage: DrainStage) -> int {
    match stage {
        DrainStage::Tasks(_) => 0,
        DrainStage::LastHandle => 1,
        DrainStage::Returned => 2,
    }
}

proof fn lemma_drain_step(signals: Seq<DrainSignal>, i: int)
    requires
        0 <= i < signals.len(),
    ensures
        drain_stage_after(signals.take(i + 1)) == drain_transition(
            drain_stage_after(signals.take(i)),
            signals[i],
        ).0,
{
    assert(signals.take(i + 1).drop_last() =~= signals.take(i));
}

proof fn lemma_zero_read_before(signals: Seq<DrainSignal>, i: int)
    requires
        0 <= i <= signals.len(),
        drain_rank(drain_stage_after(signals.take(i))) >= 1,
    ensures
        exists|j: int|
            0 <= j < i && signals[j] == DrainSignal::TasksRead(0) && drain_command_at(signals, j)
                == DrainCommand::AwaitLastHandle,
    decreases i,
{
    if i == 0 {
        assert(signals.take(0) =~= Seq::<DrainSignal>::empty());
    } else {
        lemma_drain_step(signals, i - 1);
        if drain_rank(drain_stage_after(signals.take(i - 1))) >= 1 {
            lemma_zero_read_before(signals, i - 1);
            let j = choose|j: int|
                0 <= j < i - 1 && signals[j] == DrainSignal::TasksRead(0) && drain_command_at(
                    signals,
                    j,
                ) == DrainCommand::AwaitLastHandle;
            assert(0 <= j < i);
        } else {
            assert(drain_command_at(signals, i - 1) == DrainCommand::AwaitLastHandle);
        }
    }
}

/// A drain returns only when told that the last handle is gone, and only
/// after it has read the task counter as zero; after that read it no longer
/// acts on the counter.
pub proof fn law_drain_returns_after_zero_tasks_and_last_handle(signals: Seq<DrainSignal>)
    ensures
        forall|i: int|
            0 <= i < signals.len() && #[trigger] drain_command_at(signals, i) == DrainCommand::Return
                ==> signals[i] == DrainSignal::LastHandleGone && exists|j: int|
                0 <= j < i && signals[j] == DrainSignal::TasksRead(0) && drain_command_at(signals, j)
                    == DrainCommand::AwaitLastHandle,
        forall|i: int|
            0 <= i < signals.len() && #[trigger] drain_command_at(signals, i)
                == DrainCommand::AwaitLastHandle ==> signals[i] == DrainSignal::TasksRead(0),
{
    assert forall|i: int|
        0 <= i < signals.len() && #[trigger] drain_command_at(signals, i)
            == DrainCommand::Return implies signals[i] == DrainSignal::LastHandleGone && exists|j: int|
        0 <= j < i && signals[j] == DrainSignal::TasksRead(0) && drain_command_at(signals, j)
            == DrainCommand::AwaitLastHandle by {
        lemma_zero_read_before(signals, i);
    }
}

/// While a drain waits for listener tasks, a non-zero task count never lets
/// it go on or stop: it registers for the counter's wake-up, or sleeps until
/// it, and stays waiting for tasks; only a zero count leads out of that stage,
/// and that to waiting for the last handle.
pub proof fn law_drain_keeps_waiting_while_tasks_run(stage: DrainStage, observed: i64)
    requires
        stage is Tasks,
    ensures
        observed != 0 ==> (drain_transition(stage, DrainSignal::TasksRead(observed)).1
            == DrainCommand::RegisterTasks || drain_transition(
            stage,
            DrainSignal::TasksRead(observed),
        ).1 == DrainCommand::SleepTasks),
        observed != 0 ==> drain_transition(stage, DrainSignal::TasksRead(observed)).0 is Tasks,
        observed == 0 ==> drain_transition(stage, DrainSignal::TasksRead(observed))
            == (DrainStage::LastHandle, DrainCommand::AwaitLastHandle),
        drain_transition(stage, DrainSignal::LastHandleGone) == (stage, DrainCommand::Ignore),
{
}

/// Over any run of a drain, every non-zero task count read while still
/// waiting for tasks is answered by registering or sleeping, never by a
/// command on which the drain stops; and the drain is still waiting for tasks
/// until it has read a zero count.
pub proof fn law_drain_never_stops_on_running_tasks(signals: Seq<DrainSignal>)
    ensures
        forall|i: int|
            0 <= i < signals.len() && drain_stage_after(signals.take(i)) is Tasks
                && signals[i] is TasksRead && signals[i]->TasksRead_0 != 0 ==> (
            #[trigger] drain_command_at(signals, i) == DrainCommand::RegisterTasks
                || drain_command_at(signals, i) == DrainCommand::SleepTasks),
        forall|i: int|
            0 <= i <= signals.len() && !(exists|j: int|
                0 <= j < i && signals[j] == DrainSignal::TasksRead(0)) ==> #[trigger] drain_stage_after(
                signals.take(i),
            ) is Tasks,
{
    assert forall|i: int|
        0 <= i < signals.len() && drain_stage_after(signals.take(i)) is Tasks
            && signals[i] is TasksRead && signals[i]->TasksRead_0 != 0 implies (
        #[trigger] drain_command_at(signals, i) == DrainCommand::RegisterTasks
            || drain_command_at(signals, i) == DrainCommand::SleepTasks) by {
        law_drain_keeps_waiting_while_tasks_run(
            drain_stage_after(signals.take(i)),
            signals[i]->TasksRead_0,
        );
    }
    assert forall|i: int|
        0 <= i <= signals.len() && !(exists|j: int|
            0 <= j < i && signals[j] == DrainSignal::TasksRead(0)) implies #[trigger] drain_stage_after(
        signals.take(i),
    ) is Tasks by {
        lemma_tasks_until_zero(signals, i);
    }
}

proof fn lemma_tasks_until_zero(signals: Seq<DrainSignal>, i: int)
    requires
        0 <= i <= signals.len(),
        !(exists|j: int| 0 <= j < i && signals[j] == DrainSignal::TasksRead(0)),
    ensures
        drain_stage_after(signals.take(i)) is Tasks,
    decreases i,
{
    if i == 0 {
        assert(signals.take(0) =~= Seq::<DrainSignal>::empty());
    } else {
        assert(signals[i - 1] != DrainSignal::TasksRead(0));
        lemma_tasks_until_zero(signals, i - 1);
        lemma_drain_step(signals, i - 1);
        let stage = drain_stage_after(signals.take(i - 1));
        match signals[i - 1] {
            DrainSignal::TasksRead(o) => {
                law_drain_keeps_waiting_while_tasks_run(stage, o);
            },
            DrainSignal::LastHandleGone => {
                law_drain_keeps_waiting_while_tasks_run(stage, 1);
            },
        }
    }
}

} // verus!

