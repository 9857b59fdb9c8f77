//! Verified core of an asynchronous, type-safe event bus.
//!
//! The crate holds the decisions of the bus: which ring capacities are accepted,
//! how a listener's life runs from `begin` through `handle` to `after`, when a
//! listener bound for a limited number of events asks to stop, how event chains
//! are composed, and when the counters behind startup and shutdown release their
//! waiters.
pub mod cancel;
pub mod capacity;
pub mod chain;
pub mod gate;
pub mod lifecycle;
pub mod listeners;
pub mod ring;
pub mod runs;
pub mod shutdown;
pub mod startup;

pub use cancel::{cancel_when, CancelToken};
pub use capacity::{is_power_of_two, Capacity, CapacityError};
pub use chain::{
    Chain, Conveyor, Event, Identity, Pipeline, Processor, State, WithProcessor, WithStep,
};
pub use gate::{
    all_released, is_last_handle, release_wakes_waiters, wait_step, WaitAction,
    WaitPhase,
};
pub use lifecycle::{Command, ListenerLoop, Signal, Stage};
pub use listeners::{
    from_fn, from_fn_with_cancel, many, on, once, Counter, FromFn, FromFnWithCancel, Many, On,
    Once, WithTimes,
};
pub use ring::{open_ring, Ring};
pub use shutdown::{DrainCommand, DrainLoop, DrainSignal, DrainStage};
pub use startup::StartupBarrier;
