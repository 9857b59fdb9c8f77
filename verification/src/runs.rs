//! Whole runs of a listener task.
//!
//! A run is the sequence of signals fed to a fresh [`ListenerLoop`]; the laws
//! here speak of every such sequence.
use vstd::prelude::*;
use crate::lifecycle::{transition, Command, Signal, Stage};
use crate::listeners::limit_reached;

verus! {

/// The stage reached after feeding `signals` to a fresh task.
pub open spec fn stage_after(signals: Seq<Signal>) -> Stage
    decreases signals.len(),
{
    if signals.len() == 0 {
        Stage::Created
    } else {
        transition(stage_after(signals.drop_last()), signals.last()).0
    }
}

/// The command answered to the `i`-th signal of a run.
pub open spec fn command_at(signals: Seq<Signal>, i: int) -> Command {
    transition(stage_after(signals.take(i)), signals[i]).1
}

/// How many `Handle` commands the first `n` signals of a run produce.
pub open spec fn handles_before(signals: Seq<Signal>, n: nat) -> nat
    decreases n,
{
    if n == 0 {
        0
    } else {
        handles_before(signals, (n - 1) as nat) + if command_at(signals, n - 1) == Command::Handle {
            1nat
        } else {
            0nat
        }
    }
}

/// A signal after which the task must not handle further events.
pub open spec fn is_stop_signal(signal: Signal) -> bool {
    match signal {
        Signal::Began { cancelled } => cancelled,
        Signal::Handled { cancelled } => cancelled,
        Signal::StreamEnded => true,
        Signal::CancelFired => true,
        _ => false,
    }
}

/// A run in which every token check after `handle` reports cancellation once
/// a listener limited to `times` events has reached its limit.
pub open spec fn respects_limit(signals: Seq<Signal>, times: nat) -> bool {
    forall|i: int|
        0 <= i < signals.len() && (#[trigger] signals[i] is Handled) && limit_reached(
            handles_before(signals, (i + 1) as nat),
            times,
        ) ==> signals[i] == Signal::Handled { cancelled: true }
}

spec fn rank(stage: Stage) -> int {
    match stage {
        Stage::Created => 0,
        Stage::Beginning => 1,
        Stage::Listening => 2,
        Stage::Handling => 2,
        Stage::Finishing => 3,
        Stage::Finished => 4,
    }
}

proof fn lemma_step(signals: Seq<Signal>, i: int)
    requires
        0 <= i < signals.len(),
    ensures
        stage_after(signals.take(i + 1)) == transition(stage_after(signals.take(i)), signals[i]).0,
{
    assert(signals.take(i + 1).drop_last() =~= signals.take(i));
}

proof fn lemma_transition_rank(stage: Stage, signal: Signal)
    ensures
        rank(transition(stage, signal).0) >= rank(stage),
        transition(stage, signal).1 == Command::Begin ==> stage == Stage::Created
            && transition(stage, signal).0 == Stage::Beginning,
        transition(stage, signal).1 == Command::Handle ==> stage == Stage::Listening,
        transition(stage, signal).1 == Command::After ==> transition(stage, signal).0
            == Stage::Finishing && rank(stage) < 3,
        transition(stage, signal).1 == Command::Exit ==> stage == Stage::Finishing,
        transition(stage, signal).1 == Command::Ignore ==> transition(stage, signal).0 == stage,
        transition(stage, signal).1 != Command::Ignore && transition(stage, signal).1
            != Command::Begin ==> rank(stage) >= 1,
        rank(stage) < 1 && rank(transition(stage, signal).0) >= 1 ==> transition(stage, signal).1
            == Command::Begin,
        rank(stage) < 3 && rank(transition(stage, signal).0) >= 3 ==> transition(stage, signal).1
            == Command::After,
        rank(stage) >= 3 ==> transition(stage, signal).1 == Command::Exit || transition(
            stage,
            signal,
        ).1 == Command::Ignore,
        is_stop_signal(signal) && transition(stage, signal).1 != Command::Ignore ==> transition(
            stage,
            signal,
        ).0 == Stage::Finishing,
{
}

proof fn lemma_rank_monotone(signals: Seq<Signal>, i: int, j: int)
    requires
        0 <= i <= j <= signals.len(),
    ensures
        rank(stage_after(signals.take(i))) <= rank(stage_after(signals.take(j))),
    decreases j - i,
{
    if i < j {
        lemma_rank_monotone(signals, i, j - 1);
        lemma_step(signals, j - 1);
        lemma_transition_rank(stage_after(signals.take(j - 1)), signals[j - 1]);
    }
}

proof fn lemma_begin_before(signals: Seq<Signal>, i: int)
    requires
        0 <= i <= signals.len(),
        rank(stage_after(signals.take(i))) >= 1,
    ensures
        exists|j: int| 0 <= j < i && command_at(signals, j) == Command::Begin,
    decreases i,
{
    if i == 0 {
        assert(signals.take(0) =~= Seq::<Signal>::empty());
    } else {
        lemma_step(signals, i - 1);
        lemma_transition_rank(stage_after(signals.take(i - 1)), signals[i - 1]);
        if rank(stage_after(signals.take(i - 1))) >= 1 {
            lemma_begin_before(signals, i - 1);
            let j = choose|j: int| 0 <= j < i - 1 && command_at(signals, j) == Command::Begin;
            assert(0 <= j < i && command_at(signals, j) == Command::Begin);
        } else {
            assert(command_at(signals, i - 1) == Command::Begin);
        }
    }
}

proof fn lemma_after_before(signals: Seq<Signal>, i: int)
    requires
        0 <= i <= signals.len(),
        rank(stage_after(signals.take(i))) >= 3,
    ensures
        exists|j: int| 0 <= j < i && command_at(signals, j) == Command::After,
    decreases i,
{
    if i == 0 {
        assert(signals.take(0) =~= Seq::<Signal>::empty());
    } else {
        lemma_step(signals, i - 1);
        lemma_transition_rank(stage_after(signals.take(i - 1)), signals[i - 1]);
        if rank(stage_after(signals.take(i - 1))) >= 3 {
            lemma_after_before(signals, i - 1);
            let j = choose|j: int| 0 <= j < i - 1 && command_at(signals, j) == Command::After;
            assert(0 <= j < i && command_at(signals, j) == Command::After);
        } else {
            assert(command_at(signals, i - 1) == Command::After);
        }
    }
}

/// A task runs `begin` at most once, and every other hook or exit it performs
/// comes after that `begin`.
pub proof fn law_begin_once_and_first(signals: Seq<Signal>)
    ensures
        forall|i: int, j: int|
            0 <= i < signals.len() && 0 <= j < signals.len() && #[trigger] command_at(signals, i)
                == Command::Begin && #[trigger] command_at(signals, j) == Command::Begin ==> i == j,
        forall|i: int|
            0 <= i < signals.len() && #[trigger] command_at(signals, i) != Command::Ignore
                && command_at(signals, i) != Command::Begin ==> exists|j: int|
                0 <= j < i && command_at(signals, j) == Command::Begin,
{
    assert forall|i: int, j: int|
        0 <= i < signals.len() && 0 <= j < signals.len() && #[trigger] command_at(signals, i)
            == Command::Begin && #[trigger] command_at(signals, j) == Command::Begin implies i
        == j by {
        lemma_transition_rank(stage_after(signals.take(i)), signals[i]);
        lemma_transition_rank(stage_after(signals.take(j)), signals[j]);
        if i < j {
            lemma_step(signals, i);
            lemma_rank_monotone(signals, i + 1, j);
        } else if j < i {
            lemma_step(signals, j);
            lemma_rank_monotone(signals, j + 1, i);
        }
    }
    assert forall|i: int|
        0 <= i < signals.len() && #[trigger] command_at(signals, i) != Command::Ignore
            && command_at(signals, i) != Command::Begin implies exists|j: int|
        0 <= j < i && command_at(signals, j) == Command::Begin by {
        lemma_transition_rank(stage_after(signals.take(i)), signals[i]);
        lemma_begin_before(signals, i);
    }
}

/// A task runs `after` at most once; once it has, the only command that can
/// follow is the exit, and the task exits only after `after` has run.
pub proof fn law_after_once_then_exit(signals: Seq<Signal>)
    ensures
        forall|i: int, j: int|
            0 <= i < j < signals.len() && #[trigger] command_at(signals, i) == Command::After
                ==> #[trigger] command_at(signals, j) == Command::Exit || command_at(signals, j)
                == Command::Ignore,
        forall|j: int|
            0 <= j < signals.len() && #[trigger] command_at(signals, j) == Command::Exit
                ==> exists|i: int| 0 <= i < j && command_at(signals, i) == Command::After,
{
    assert forall|i: int, j: int|
        0 <= i < j < signals.len() && #[trigger] command_at(signals, i) == Command::After
            implies #[trigger] command_at(signals, j) == Command::Exit || command_at(signals, j)
        == Command::Ignore by {
        lemma_transition_rank(stage_after(signals.take(i)), signals[i]);
        lemma_step(signals, i);
        lemma_rank_monotone(signals, i + 1, j);
        lemma_transition_rank(stage_after(signals.take(j)), signals[j]);
    }
    assert forall|j: int|
        0 <= j < signals.len() && #[trigger] command_at(signals, j) == Command::Exit implies exists|
        i: int,
    | 0 <= i < j && command_at(signals, i) == Command::After by {
        lemma_transition_rank(stage_after(signals.take(j)), signals[j]);
        lemma_after_before(signals, j);
    }
}

/// Once a task has taken a cancellation or the end of its stream into account,
/// it never handles another event.
pub proof fn law_no_handle_after_stop(signals: Seq<Signal>)
    ensures
        forall|i: int, j: int|
            0 <= i < j < signals.len() && is_stop_signal(#[trigger] signals[i]) && command_at(
                signals,
                i,
            ) != Command::Ignore ==> #[trigger] command_at(signals, j) != Command::Handle,
{
    assert forall|i: int, j: int|
        0 <= i < j < signals.len() && is_stop_signal(#[trigger] signals[i]) && command_at(
            signals,
            i,
        ) != Command::Ignore implies #[trigger] command_at(signals, j) != Command::Handle by {
        lemma_transition_rank(stage_after(signals.take(i)), signals[i]);
        lemma_step(signals, i);
        lemma_rank_monotone(signals, i + 1, j);
        lemma_transition_rank(stage_after(signals.take(j)), signals[j]);
    }
}

proof fn lemma_limit_invariant(signals: Seq<Signal>, times: nat, n: nat)
    requires
        times > 0,
        n <= signals.len(),
        respects_limit(signals, times),
    ensures
        handles_before(signals, n) <= times,
        stage_after(signals.take(n as int)) == Stage::Listening ==> handles_before(signals, n)
            < times,
        rank(stage_after(signals.take(n as int))) <= 1 ==> handles_before(signals, n) == 0,
    decreases n,
{
    if n == 0 {
        assert(signals.take(0) =~= Seq::<Signal>::empty());
    } else {
        let k = (n - 1) as nat;
        lemma_limit_invariant(signals, times, k);
        lemma_step(signals, k as int);
        lemma_transition_rank(stage_after(signals.take(k as int)), signals[k as int]);
    }
}

/// A listener limited to `times` events, whose task is told of cancellation
/// once the limit is reached, handles at most `times` events.
pub proof fn law_limit_bounds_handles(signals: Seq<Signal>, times: nat)
    requires
        times > 0,
        respects_limit(signals, times),
    ensures
        handles_before(signals, signals.len()) <= times,
{
    lemma_limit_invariant(signals, times, signals.len());
}

/// A task answers an event with `handle` exactly when it was listening and
/// the event stream yielded an event: every delivered event is handled once,
/// right away, and nothing else leads to `handle`.
pub proof fn law_one_handle_per_delivery(signals: Seq<Signal>)
    ensures
        forall|i: int|
            0 <= i < signals.len() ==> (#[trigger] command_at(signals, i) == Command::Handle <==> (
            stage_after(signals.take(i)) == Stage::Listening && signals[i] == Signal::Received)),
{
}

/// The final stage, and the number of `Handle` commands, when `signals` are
/// fed one after another to a task in `stage`.
pub open spec fn replay(stage: Stage, signals: Seq<Signal>) -> (Stage, nat)
    decreases signals.len(),
{
    if signals.len() == 0 {
        (stage, 0)
    } else {
        let (next, command) = transition(stage, signals[0]);
        let rest = replay(next, signals.drop_first());
        (rest.0, rest.1 + if command == Command::Handle {
            1nat
        } else {
            0nat
        })
    }
}

/// What a listening task limited to `times` events, having handled `handled`
/// of them, is fed when `remaining` more events come and nothing but its limit
/// cancels it: each event is delivered, then `handle` returns with the token
/// cancelled exactly when the limit is reached; once cancelled, `after`
/// returns; if the events run out first, the stream ends and `after` returns.
pub open spec fn limited_feed(times: nat, remaining: nat, handled: nat) -> Seq<Signal>
    decreases remaining,
{
    if remaining == 0 {
        seq![Signal::StreamEnded, Signal::Ended]
    } else {
        let cancelled = limit_reached(handled + 1, times);
        seq![Signal::Received, Signal::Handled { cancelled }] + if cancelled {
            seq![Signal::Ended]
        } else {
            limited_feed(times, (remaining - 1) as nat, handled + 1)
        }
    }
}

/// A whole run of a task limited to `times` events over a stream of
/// `offered` events, with no other cancellation.
pub open spec fn limited_run(times: nat, offered: nat) -> Seq<Signal> {
    seq![Signal::Start, Signal::Began { cancelled: false }] + limited_feed(times, offered, 0)
}

spec fn min_nat(a: nat, b: nat) -> nat {
    if a <= b {
        a
    } else {
        b
    }
}

proof fn lemma_replay_two(stage: Stage, a: Signal, b: Signal, rest: Seq<Signal>)
    ensures
        replay(stage, seq![a, b] + rest) == ({
            let (s1, c1) = transition(stage, a);
            let (s2, c2) = transition(s1, b);
            let r = replay(s2, rest);
            (r.0, r.1 + (if c2 == Command::Handle {
                1nat
            } else {
                0nat
            }) + (if c1 == Command::Handle {
                1nat
            } else {
                0nat
            }))
        }),
{
    reveal_with_fuel(replay, 3);
    let whole = seq![a, b] + rest;
    assert(whole[0] == a);
    assert(whole.drop_first() =~= seq![b] + rest);
    assert((seq![b] + rest)[0] == b);
    assert((seq![b] + rest).drop_first() =~= rest);
}

proof fn lemma_limited_feed(times: nat, remaining: nat, handled: nat)
    requires
        handled < times,
    ensures
        replay(Stage::Listening, limited_feed(times, remaining, handled)) == (
            Stage::Finished,
            min_nat(remaining, (times - handled) as nat),
        ),
    decreases remaining,
{
    reveal_with_fuel(replay, 3);
    if remaining == 0 {
        lemma_replay_two(Stage::Listening, Signal::StreamEnded, Signal::Ended, Seq::empty());
        assert(seq![Signal::StreamEnded, Signal::Ended] + Seq::<Signal>::empty() =~= seq![
            Signal::StreamEnded,
            Signal::Ended,
        ]);
    } else {
        let cancelled = limit_reached(handled + 1, times);
        let rest = if cancelled {
            seq![Signal::Ended]
        } else {
            limited_feed(times, (remaining - 1) as nat, handled + 1)
        };
        lemma_replay_two(Stage::Listening, Signal::Received, Signal::Handled { cancelled }, rest);
        if cancelled {
            assert(seq![Signal::Ended][0] == Signal::Ended);
            assert(seq![Signal::Ended].drop_first() =~= Seq::<Signal>::empty());
        } else {
            lemma_limited_feed(times, (remaining - 1) as nat, handled + 1);
        }
    }
}

/// A task whose listener is limited to `times` events, over a stream of
/// `offered` events and with no other cancellation, handles exactly
/// `min(times, offered)` events and then finishes (after `after`).
pub proof fn law_limited_run_handles_min(times: nat, offered: nat)
    requires
        times > 0,
    ensures
        (stage_after(limited_run(times, offered)), handles_before(
            limited_run(times, offered),
            limited_run(times, offered).len(),
        )) == (
            Stage::Finished,
            if times <= offered {
                times
            } else {
                offered
            },
        ),
{
    lemma_limited_feed(times, offered, 0);
    lemma_replay_two(
        Stage::Created,
        Signal::Start,
        Signal::Began { cancelled: false },
        limited_feed(times, offered, 0),
    );
    lemma_replay_matches_run(limited_run(times, offered));
}

proof fn lemma_replay_push(stage: Stage, signals: Seq<Signal>, last: Signal)
    ensures
        replay(stage, signals.push(last)) == ({
            let before = replay(stage, signals);
            let (next, command) = transition(before.0, last);
            (next, before.1 + if command == Command::Handle {
                1nat
            } else {
                0nat
            })
        }),
    decreases signals.len(),
{
    if signals.len() == 0 {
        reveal_with_fuel(replay, 2);
        assert(signals.push(last)[0] == last);
        assert(signals.push(last).drop_first() =~= Seq::<Signal>::empty());
    } else {
        let next = transition(stage, signals[0]).0;
        lemma_replay_push(next, signals.drop_first(), last);
        assert(signals.push(last)[0] == signals[0]);
        assert(signals.push(last).drop_first() =~= signals.drop_first().push(last));
    }
}

proof fn lemma_handles_prefix(signals: Seq<Signal>, n: nat, m: int)
    requires
        n <= m <= signals.len(),
    ensures
        handles_before(signals, n) == handles_before(signals.take(m), n),
    decreases n,
{
    if n > 0 {
        lemma_handles_prefix(signals, (n - 1) as nat, m);
        let i = n - 1;
        assert(signals.take(m).take(i) =~= signals.take(i));
        assert(signals.take(m)[i] == signals[i]);
    }
}

/// Replaying a run from a fresh task reaches the stage that [`stage_after`]
/// names and counts the `Handle` commands that [`handles_before`] counts.
pub proof fn lemma_replay_matches_run(signals: Seq<Signal>)
    ensures
        replay(Stage::Created, signals) == (stage_after(signals), handles_before(
            signals,
            signals.len(),
        )),
    decreases signals.len(),
{
    if signals.len() == 0 {
    } else {
        let front = signals.drop_last();
        lemma_replay_matches_run(front);
        lemma_replay_push(Stage::Created, front, signals.last());
        assert(front.push(signals.last()) =~= signals);
        lemma_handles_prefix(signals, front.len(), front.len() as int);
        assert(signals.take(front.len() as int) =~= front);
    }
}

/// What a listening task is fed when `remaining` more events come and nothing
/// cancels it: each event is delivered and handled, then the stream ends and
/// `after` returns.
pub open spec fn open_feed(remaining: nat) -> Seq<Signal>
    decreases remaining,
{
    if remaining == 0 {
        seq![Signal::StreamEnded, Signal::Ended]
    } else {
        seq![Signal::Received, Signal::Handled { cancelled: false }] + open_feed(
            (remaining - 1) as nat,
        )
    }
}

/// A whole run of a task over a stream of `offered` events, never cancelled.
pub open spec fn open_run(offered: nat) -> Seq<Signal> {
    seq![Signal::Start, Signal::Began { cancelled: false }] + open_feed(offered)
}

proof fn lemma_open_feed(remaining: nat)
    ensures
        replay(Stage::Listening, open_feed(remaining)) == (Stage::Finished, remaining),
    decreases remaining,
{
    reveal_with_fuel(replay, 3);
    if remaining == 0 {
        lemma_replay_two(Stage::Listening, Signal::StreamEnded, Signal::Ended, Seq::empty());
        assert(seq![Signal::StreamEnded, Signal::Ended] + Seq::<Signal>::empty() =~= seq![
            Signal::StreamEnded,
            Signal::Ended,
        ]);
    } else {
        lemma_open_feed((remaining - 1) as nat);
        lemma_replay_two(
            Stage::Listening,
            Signal::Received,
            Signal::Handled { cancelled: false },
            open_feed((remaining - 1) as nat),
        );
    }
}

/// A task that is never cancelled, over a stream of `offered` events, handles
/// every one of them, each once, and then finishes (after `after`).
pub proof fn law_open_run_handles_every_event(offered: nat)
    ensures
        (stage_after(open_run(offered)), handles_before(open_run(offered), open_run(offered).len()))
            == (Stage::Finished, offered),
{
    lemma_open_feed(offered);
    lemma_replay_two(
        Stage::Created,
        Signal::Start,
        Signal::Began { cancelled: false },
        open_feed(offered),
    );
    lemma_replay_matches_run(open_run(offered));
}

} // verus!



