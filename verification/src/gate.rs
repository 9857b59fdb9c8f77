//! Decisions of the counters that hold back event delivery and shutdown.
//!
//! Running listener tasks are counted by an atomic counter held in a guard,
//! and bus handles by the shared state's reference count. The functions here
//! decide, from the values those counters report, when waiters are woken and
//! when waiting is over.
use vstd::prelude::*;

verus! {

/// Whether dropping a guard must wake the waiters: `previous` is what the
/// counter held just before the guard's decrement, so the waiters are woken
/// exactly when the count falls to zero.
pub fn release_wakes_waiters(previous: i64) -> (r: bool)
    ensures
        r == (previous == 1),
{
    previous == 1
}

/// Whether a wait on a task counter is over: no guard is held any more.
pub fn all_released(observed: i64) -> (r: bool)
    ensures
        r == (observed == 0),
{
    observed == 0
}

/// Whether a bus handle is the last one, given how many handles hold the shared
/// state: only the last handle's drop wakes the drainers, and only closing the
/// last handle drains the whole bus; any other one is only released.
pub fn is_last_handle(holders: usize) -> (r: bool)
    requires
        holders >= 1,
    ensures
        r == (holders == 1),
{
    holders == 1
}

/// Where a waiter on a task counter stands.
#[derive(Debug, Clone, Copy, PartialEq, Eq, Structural)]
pub enum WaitPhase {
    /// About to read the counter with no wake-up registered.
    Checking,
    /// A wake-up is registered; the counter is read once more before sleeping.
    Registered,
}

/// What a waiter on a task counter must do next.
#[derive(Debug, Clone, Copy, PartialEq, Eq, Structural)]
pub enum WaitAction {
    /// The counter was zero: the wait is over.
    Done,
    /// Register for the next wake-up, then read the counter again.
    Register,
    /// Sleep until the registered wake-up arrives, then read the counter again.
    Park,
}

/// One step of a wait: the counter is read, then the waiter either stops,
/// registers for a wake-up, or sleeps on the wake-up it registered. Sleeping
/// always follows a second read made after registering, so a release that
/// happens between the first read and the registration is not missed.
pub open spec fn wait_transition(phase: WaitPhase, observed: i64) -> (WaitPhase, WaitAction) {
    if observed == 0 {
        (WaitPhase::Checking, WaitAction::Done)
    } else {
        match phase {
            WaitPhase::Checking => (WaitPhase::Registered, WaitAction::Register),
            WaitPhase::Registered => (WaitPhase::Checking, WaitAction::Park),
        }
    }
}

/// Decides the next move of a waiter that just read `observed` from the counter.
pub fn wait_step(phase: WaitPhase, observed: i64) -> (r: (WaitPhase, WaitAction))
    ensures
        r == wait_transition(phase, observed),
        r.1 == WaitAction::Done <==> observed == 0,
        r.1 == WaitAction::Park ==> phase == WaitPhase::Registered,
{
    if all_released(observed) {
        (WaitPhase::Checking, WaitAction::Done)
    } else {
        match phase {
            WaitPhase::Checking => (WaitPhase::Registered, WaitAction::Register),
            WaitPhase::Registered => (WaitPhase::Checking, WaitAction::Park),
        }
    }
}

/// The phase a waiter is in after answering the counter values `observed`,
/// starting from a first read with no wake-up registered.
pub open spec fn wait_phase_after(observed: Seq<i64>) -> WaitPhase
    decreases observed.len(),
{
    if observed.len() == 0 {
        WaitPhase::Checking
    } else {
        wait_transition(wait_phase_after(observed.drop_last()), observed.last()).0
    }
}

/// The action answered to the `i`-th counter value a waiter read.
pub open spec fn wait_action_at(observed: Seq<i64>, i: int) -> WaitAction {
    wait_transition(wait_phase_after(observed.take(i)), observed[i]).1
}

/// The action answered to the counter value read just before the `i`-th one.
pub open spec fn action_before(observed: Seq<i64>, i: int) -> WaitAction {
    wait_action_at(observed, i - 1)
}

proof fn lemma_registered_after_register(observed: Seq<i64>, i: int)
    requires
        0 <= i < observed.len(),
        wait_phase_after(observed.take(i)) == WaitPhase::Registered,
    ensures
        i >= 1,
        action_before(observed, i) == WaitAction::Register,
{
    if i == 0 {
        assert(observed.take(0) =~= Seq::<i64>::empty());
    } else {
        assert(observed.take(i).drop_last() =~= observed.take(i - 1));
    }
}

/// A waiter sleeps only right after it registered for a wake-up and then read
/// a non-zero count again; and it stops exactly on reading zero.
pub proof fn law_wait_never_sleeps_unregistered(observed: Seq<i64>)
    ensures
        forall|i: int|
            0 <= i < observed.len() && #[trigger] wait_action_at(observed, i) == WaitAction::Park
                ==> i >= 1 && action_before(observed, i) == WaitAction::Register
                && observed[i] != 0,
        forall|i: int|
            0 <= i < observed.len() ==> (#[trigger] wait_action_at(observed, i) == WaitAction::Done
                <==> observed[i] == 0),
{
    assert forall|i: int|
        0 <= i < observed.len() && #[trigger] wait_action_at(observed, i)
            == WaitAction::Park implies i >= 1 && action_before(observed, i)
        == WaitAction::Register && observed[i] != 0 by {
        lemma_registered_after_register(observed, i);
    }
    assert forall|i: int| 0 <= i < observed.len() implies (#[trigger] wait_action_at(observed, i)
        == WaitAction::Done <==> observed[i] == 0) by {
        let phase = wait_phase_after(observed.take(i));
        assert(wait_action_at(observed, i) == wait_transition(phase, observed[i]).1);
    }
}

} // verus!
