//! The life of one listener task, as a state machine.
//!
//! A listener runs `begin` once, then handles events one at a time until its
//! cancellation token fires or its event stream ends, then runs `after` once and
//! exits. The loop that awaits the listener's hooks and the event stream feeds
//! what it observed to [`ListenerLoop::step`] and performs the command it gets
//! back.
use vstd::prelude::*;

verus! {

/// Where a listener task stands.
#[derive(Debug, Clone, Copy, PartialEq, Eq, Structural)]
pub enum Stage {
    /// Not started yet.
    Created,
    /// `begin` is running.
    Beginning,
    /// Waiting for the next event or for cancellation.
    Listening,
    /// `handle` is running on an event.
    Handling,
    /// `after` is running.
    Finishing,
    /// The task has exited.
    Finished,
}

/// What the task loop observed since its last command.
#[derive(Debug, Clone, Copy, PartialEq, Eq, Structural)]
pub enum Signal {
    /// The task was spawned.
    Start,
    /// `begin` returned; `cancelled` is what the token said right after.
    Began { cancelled: bool },
    /// The event stream yielded an event.
    Received,
    /// The event stream ended (every publisher is gone).
    StreamEnded,
    /// The cancellation token fired while waiting for an event.
    CancelFired,
    /// `handle` returned; `cancelled` is what the token said right after.
    Handled { cancelled: bool },
    /// `after` returned.
    Ended,
}

/// What the task loop must do next.
#[derive(Debug, Clone, Copy, PartialEq, Eq, Structural)]
pub enum Command {
    /// Run the listener's `begin` hook.
    Begin,
    /// Wait for the next event or for cancellation, whichever comes first.
    AwaitEvent,
    /// Run the listener's `handle` hook on the event just received.
    Handle,
    /// Run the listener's `after` hook.
    After,
    /// Leave the task.
    Exit,
    /// The signal does not fit the current stage; nothing to do.
    Ignore,
}

/// The stage reached when the loop checks the token, given what it read.
pub open spec fn check_token(cancelled: bool) -> (Stage, Command) {
    if cancelled {
        (Stage::Finishing, Command::After)
    } else {
        (Stage::Listening, Command::AwaitEvent)
    }
}

/// One step of a listener task: the next stage and the command to perform.
pub open spec fn transition(stage: Stage, signal: Signal) -> (Stage, Command) {
    match stage {
        Stage::Created => match signal {
            Signal::Start => (Stage::Beginning, Command::Begin),
            _ => (stage, Command::Ignore),
        },
        Stage::Beginning => match signal {
            Signal::Began { cancelled } => check_token(cancelled),
            _ => (stage, Command::Ignore),
        },
        Stage::Listening => match signal {
            Signal::Received => (Stage::Handling, Command::Handle),
            Signal::StreamEnded => (Stage::Finishing, Command::After),
            Signal::CancelFired => (Stage::Finishing, Command::After),
            _ => (stage, Command::Ignore),
        },
        Stage::Handling => match signal {
            Signal::Handled { cancelled } => check_token(cancelled),
            _ => (stage, Command::Ignore),
        },
        Stage::Finishing => match signal {
            Signal::Ended => (Stage::Finished, Command::Exit),
            _ => (stage, Command::Ignore),
        },
        Stage::Finished => (stage, Command::Ignore),
    }
}

/// The state machine of one listener task.
pub struct ListenerLoop {
    stage: Stage,
}

impl View for ListenerLoop {
    type V = Stage;

    closed spec fn view(&self) -> Stage {
        self.stage
    }
}

impl ListenerLoop {
    /// A task that has not started.
    pub fn new() -> (r: ListenerLoop)
        ensures
            r@ == Stage::Created,
    {
        ListenerLoop { stage: Stage::Created }
    }

    /// The current stage.
    pub fn stage(&self) -> (r: Stage)
        ensures
            r == self@,
    {
        self.stage
    }

    /// Whether the task has exited.
    pub fn is_finished(&self) -> (r: bool)
        ensures
            r == (self@ == Stage::Finished),
    {
        match self.stage {
            Stage::Finished => true,
            _ => false,
        }
    }

    /// Feeds one observation and returns the command to perform.
    pub fn step(&mut self, signal: Signal) -> (c: Command)
        ensures
            (final(self)@, c) == transition(old(self)@, signal),
    {
        let (next, command) = match self.stage {
            Stage::Created => match signal {
                Signal::Start => (Stage::Beginning, Command::Begin),
                _ => (Stage::Created, Command::Ignore),
            },
            Stage::Beginning => match signal {
                Signal::Began { cancelled } => Self::after_token_check(cancelled),
                _ => (Stage::Beginning, Command::Ignore),
            },
            Stage::Listening => match signal {
                Signal::Received => (Stage::Handling, Command::Handle),
                Signal::StreamEnded => (Stage::Finishing, Command::After),
                Signal::CancelFired => (Stage::Finishing, Command::After),
                _ => (Stage::Listening, Command::Ignore),
            },
            Stage::Handling => match signal {
                Signal::Handled { cancelled } => Self::after_token_check(cancelled),
                _ => (Stage::Handling, Command::Ignore),
            },
            Stage::Finishing => match signal {
                Signal::Ended => (Stage::Finished, Command::Exit),
                _ => (Stage::Finishing, Command::Ignore),
            },
            Stage::Finished => (Stage::Finished, Command::Ignore),
        };
        self.stage = next;
        command
    }

    fn after_token_check(cancelled: bool) -> (r: (Stage, Command))
        ensures
            r == check_token(cancelled),
    {
        if cancelled {
            (Stage::Finishing, Command::After)
        } else {
            (Stage::Listening, Command::AwaitEvent)
        }
    }
}

} // verus!
