//! The decisions of the two pipeline flows: which sessions stay live after a
//! polling cycle, and what the consumer does with each receive attempt.
use vstd::prelude::*;
use crate::measurement::Measurement;
use crate::codec::{decoded, sample_of, METER_CO2};
use crate::sensor::{
    record, run_read, step_agrees, step_spec, ReadCycle, ReadOutcome, ReadStep, StepView,
    READ_BUDGET,
};
use crate::sink::{appended, Sink};

verus! {

/// The sessions that stay live: every one whose read did not fail, in order.
pub open spec fn live_sessions<S>(sessions: Seq<S>, outcomes: Seq<ReadOutcome>) -> Seq<S>
    decreases sessions.len(),
{
    if sessions.len() == 0 {
        seq![]
    } else if outcomes[0] is Failed {
        live_sessions(sessions.drop_first(), outcomes.drop_first())
    } else {
        seq![sessions[0]] + live_sessions(sessions.drop_first(), outcomes.drop_first())
    }
}

/// The measurements that a polling cycle produced, in session order.
pub open spec fn produced(outcomes: Seq<ReadOutcome>) -> Seq<Measurement>
    decreases outcomes.len(),
{
    if outcomes.len() == 0 {
        seq![]
    } else if outcomes[0] is Measured {
        seq![outcomes[0]->Measured_0] + produced(outcomes.drop_first())
    } else {
        produced(outcomes.drop_first())
    }
}

/// Ends a polling cycle: `outcomes[i]` is how the read of `sessions[i]`
/// ended, a session being whatever the caller keeps per device. Sessions
/// whose read failed are dropped for good; the others stay, in order. The
/// measurements are returned in session order, to be sent down the channel.
pub fn prune<S>(sessions: Vec<S>, outcomes: Vec<ReadOutcome>) -> (r: (Vec<S>, Vec<Measurement>))
    requires
        sessions@.len() == outcomes@.len(),
    ensures
        r.0@ == live_sessions(sessions@, outcomes@),
        r.1@ == produced(outcomes@),
{
    let mut rest_s = sessions;
    let mut rest_o = outcomes;
    let mut live: Vec<S> = Vec::new();
    let mut made: Vec<Measurement> = Vec::new();
    while rest_s.len() > 0
        invariant
            rest_s@.len() == rest_o@.len(),
            live@ + live_sessions(rest_s@, rest_o@) == live_sessions(sessions@, outcomes@),
            made@ + produced(rest_o@) == produced(outcomes@),
        decreases rest_s@.len(),
    {
        let ghost s0 = rest_s@;
        let ghost o0 = rest_o@;
        let s = rest_s.remove(0);
        let o = rest_o.remove(0);
        assert(rest_s@ =~= s0.drop_first());
        assert(rest_o@ =~= o0.drop_first());
        match o {
            ReadOutcome::Failed => {},
            ReadOutcome::Missed => {
                live.push(s);
                assert(live@ + live_sessions(rest_s@, rest_o@) =~= live_sessions(sessions@, outcomes@));
            },
            ReadOutcome::Measured(m) => {
                live.push(s);
                made.push(m);
                assert(live@ + live_sessions(rest_s@, rest_o@) =~= live_sessions(sessions@, outcomes@));
                assert(made@ + produced(rest_o@) =~= produced(outcomes@));
            },
        }
    }
    assert(live@ =~= live_sessions(sessions@, outcomes@));
    assert(made@ =~= produced(outcomes@));
    (live, made)
}

/// The survivors of a cycle split at any session: those before it, the
/// session itself unless its read failed, and those after it.
pub proof fn lemma_live_sessions_split<S>(sessions: Seq<S>, outcomes: Seq<ReadOutcome>, i: int)
    requires
        sessions.len() == outcomes.len(),
        0 <= i < sessions.len(),
    ensures
        live_sessions(sessions, outcomes) == live_sessions(sessions.take(i), outcomes.take(i)) + (
        if outcomes[i] is Failed {
            seq![]
        } else {
            seq![sessions[i]]
        }) + live_sessions(sessions.skip(i + 1), outcomes.skip(i + 1)),
    decreases i,
{
    if i == 0 {
        assert(sessions.take(0) =~= seq![]);
        assert(sessions.skip(1) =~= sessions.drop_first());
        assert(outcomes.skip(1) =~= outcomes.drop_first());
        assert(live_sessions(sessions.take(0), outcomes.take(0)) == Seq::<S>::empty());
        if outcomes[0] is Failed {
            assert(live_sessions(sessions, outcomes) =~= seq![] + seq![] + live_sessions(
                sessions.skip(1),
                outcomes.skip(1),
            ));
        } else {
            assert(live_sessions(sessions, outcomes) =~= seq![] + seq![sessions[0]] + live_sessions(
                sessions.skip(1),
                outcomes.skip(1),
            ));
        }
    } else {
        let s1 = sessions.drop_first();
        let o1 = outcomes.drop_first();
        lemma_live_sessions_split(s1, o1, i - 1);
        assert(s1.take(i - 1) =~= sessions.take(i).drop_first());
        assert(o1.take(i - 1) =~= outcomes.take(i).drop_first());
        assert(s1.skip(i) =~= sessions.skip(i + 1));
        assert(o1.skip(i) =~= outcomes.skip(i + 1));
        assert(sessions.take(i)[0] == sessions[0]);
        assert(outcomes.take(i)[0] == outcomes[0]);
        let mid: Seq<S> = if outcomes[i] is Failed {
            seq![]
        } else {
            seq![sessions[i]]
        };
        assert(s1[i - 1] == sessions[i]);
        assert(o1[i - 1] == outcomes[i]);
        if outcomes[0] is Failed {
            assert(live_sessions(sessions.take(i), outcomes.take(i)) == live_sessions(
                s1.take(i - 1),
                o1.take(i - 1),
            ));
        } else {
            assert(live_sessions(sessions.take(i), outcomes.take(i)) == seq![sessions[0]]
                + live_sessions(s1.take(i - 1), o1.take(i - 1)));
            assert(live_sessions(sessions, outcomes) =~= live_sessions(
                sessions.take(i),
                outcomes.take(i),
            ) + mid + live_sessions(sessions.skip(i + 1), outcomes.skip(i + 1)));
        }
    }
}

/// A session whose read failed is gone after the cycle: the survivors are
/// exactly those of the same cycle without it, so it is never polled again.
pub proof fn lemma_failed_session_is_dropped<S>(sessions: Seq<S>, outcomes: Seq<ReadOutcome>, i: int)
    requires
        sessions.len() == outcomes.len(),
        0 <= i < sessions.len(),
        outcomes[i] is Failed,
    ensures
        live_sessions(sessions, outcomes) == live_sessions(sessions.remove(i), outcomes.remove(i)),
{
    lemma_live_sessions_split(sessions, outcomes, i);
    assert(sessions.remove(i) =~= sessions.take(i) + sessions.skip(i + 1));
    assert(outcomes.remove(i) =~= outcomes.take(i) + outcomes.skip(i + 1));
    lemma_live_sessions_concat(sessions.take(i), outcomes.take(i), sessions.skip(i + 1), outcomes.skip(i + 1));
    assert(live_sessions(sessions, outcomes) =~= live_sessions(sessions.take(i), outcomes.take(i))
        + live_sessions(sessions.skip(i + 1), outcomes.skip(i + 1)));
}

/// A session whose read did not fail stays live, in its place among the
/// survivors.
pub proof fn lemma_unfailed_session_stays<S>(sessions: Seq<S>, outcomes: Seq<ReadOutcome>, i: int)
    requires
        sessions.len() == outcomes.len(),
        0 <= i < sessions.len(),
        !(outcomes[i] is Failed),
    ensures
        live_sessions(sessions, outcomes) == live_sessions(sessions.take(i), outcomes.take(i))
            + seq![sessions[i]] + live_sessions(sessions.skip(i + 1), outcomes.skip(i + 1)),
{
    lemma_live_sessions_split(sessions, outcomes, i);
}

/// Survivors of two lists of sessions, one after the other.
proof fn lemma_live_sessions_concat<S>(s1: Seq<S>, o1: Seq<ReadOutcome>, s2: Seq<S>, o2: Seq<ReadOutcome>)
    requires
        s1.len() == o1.len(),
        s2.len() == o2.len(),
    ensures
        live_sessions(s1 + s2, o1 + o2) == live_sessions(s1, o1) + live_sessions(s2, o2),
    decreases s1.len(),
{
    if s1.len() == 0 {
        assert(s1 + s2 =~= s2);
        assert(o1 + o2 =~= o2);
        assert(live_sessions(s1, o1) + live_sessions(s2, o2) =~= live_sessions(s2, o2));
    } else {
        lemma_live_sessions_concat(s1.drop_first(), o1.drop_first(), s2, o2);
        assert((s1 + s2).drop_first() =~= s1.drop_first() + s2);
        assert((o1 + o2).drop_first() =~= o1.drop_first() + o2);
        assert((o1 + o2)[0] == o1[0]);
        assert((s1 + s2)[0] == s1[0]);
        if !(o1[0] is Failed) {
            assert(live_sessions(s1 + s2, o1 + o2) =~= live_sessions(s1, o1) + live_sessions(s2, o2));
        }
    }
}

/// A read that fails or comes back short ends the session at once: the
/// first step of its cycle finishes as failed, and the session is not among
/// the survivors of that polling cycle, so it is never polled again.
pub proof fn lemma_short_read_ends_session<S>(
    key: Seq<u8>,
    cycle: ReadCycle,
    frame: Option<Seq<u8>>,
    step: ReadStep,
    name: Seq<char>,
    sessions: Seq<S>,
    outcomes: Seq<ReadOutcome>,
    i: int,
)
    requires
        frame is None || frame->0.len() != 8,
        step_agrees(step, step_spec(key, cycle, frame), name),
        sessions.len() == outcomes.len(),
        0 <= i < sessions.len(),
        step is Finished ==> outcomes[i] == step->Finished_0,
    ensures
        step is Finished && step->Finished_0 is Failed,
        live_sessions(sessions, outcomes) == live_sessions(sessions.remove(i), outcomes.remove(i)),
{
    lemma_failed_session_is_dropped(sessions, outcomes, i);
}

/// From a cycle that has seen no temperature, frames that all carry CO2
/// samples exhaust the budget.
proof fn lemma_co2_frames_miss(key: Seq<u8>, cycle: ReadCycle, frames: Seq<Option<Seq<u8>>>)
    requires
        cycle.temperature is None,
        cycle.reads < READ_BUDGET,
        frames.len() >= READ_BUDGET - cycle.reads,
        forall|j: int|
            0 <= j < frames.len() ==> (#[trigger] frames[j] is Some && frames[j]->0.len() == 8
                && decoded(frames[j]->0, key)[0] == METER_CO2),
    ensures
        run_read(key, cycle, frames) == Some(StepView::Missed),
    decreases READ_BUDGET - cycle.reads,
{
    assert(frames[0] is Some);
    let next = record(cycle, sample_of(decoded(frames[0]->0, key)));
    if next.reads < READ_BUDGET {
        let rest = frames.drop_first();
        assert forall|j: int| 0 <= j < rest.len() implies (#[trigger] rest[j] is Some
            && rest[j]->0.len() == 8 && decoded(rest[j]->0, key)[0] == METER_CO2) by {
            assert(rest[j] == frames[j + 1]);
        }
        lemma_co2_frames_miss(key, next, rest);
    }
}

/// A session whose frames only ever carry CO2 samples is never dropped:
/// each read cycle runs out of budget without a measurement, which is a
/// miss, and a session whose cycle missed stays live in its place.
pub proof fn lemma_co2_only_session_stays<S>(
    key: Seq<u8>,
    frames: Seq<Option<Seq<u8>>>,
    sessions: Seq<S>,
    outcomes: Seq<ReadOutcome>,
    i: int,
)
    requires
        frames.len() >= READ_BUDGET,
        forall|j: int|
            0 <= j < frames.len() ==> (#[trigger] frames[j] is Some && frames[j]->0.len() == 8
                && decoded(frames[j]->0, key)[0] == METER_CO2),
        sessions.len() == outcomes.len(),
        0 <= i < sessions.len(),
        outcomes[i] is Missed,
    ensures
        run_read(key, ReadCycle { co2: None, temperature: None, reads: 0 }, frames) == Some(
            StepView::Missed,
        ),
        live_sessions(sessions, outcomes) == live_sessions(sessions.take(i), outcomes.take(i))
            + seq![sessions[i]] + live_sessions(sessions.skip(i + 1), outcomes.skip(i + 1)),
{
    lemma_co2_frames_miss(key, ReadCycle { co2: None, temperature: None, reads: 0 }, frames);
    lemma_unfailed_session_stays(sessions, outcomes, i);
}

/// The result of one non-blocking receive on the channel.
pub enum Receipt {
    /// A measurement was waiting.
    Item(Measurement),
    /// Nothing was waiting.
    Empty,
    /// The producer has closed the channel.
    Closed,
}

/// What the consumer does next.
#[derive(Debug, Clone, Copy, PartialEq, Eq, Structural)]
pub enum NextStep {
    /// Wait for the next tick.
    Continue,
    /// Submit every sink one last time, then stop.
    Finish,
}

/// Every sink of `after` is the same sink of `before`, with `m` appended to
/// its buffer.
pub open spec fn all_appended(before: Seq<Sink>, after: Seq<Sink>, m: crate::measurement::MeasurementView) -> bool {
    &&& after.len() == before.len()
    &&& forall|i: int|
        0 <= i < before.len() ==> {
            appended(before[i], #[trigger] after[i], m)
        }
}

/// Handles one receive attempt of the consumer: a measurement goes to
/// every sink; an empty channel changes nothing; a closed channel changes
/// nothing and ends the consumer after a final submit of every sink, so
/// that nothing still buffered is left behind.
///
/// The consumer makes exactly one receive attempt per one-second tick, by
/// design: it paces delivery to the sinks, and a backlog in the channel
/// drains at one measurement per tick while the producer is held back by
/// the channel's bound.
pub fn deliver(sinks: &mut Vec<Sink>, receipt: Receipt) -> (r: NextStep)
    ensures
        match receipt {
            Receipt::Item(m) => r == NextStep::Continue && all_appended(old(sinks)@, final(sinks)@, m@),
            Receipt::Empty => r == NextStep::Continue && final(sinks)@ == old(sinks)@,
            Receipt::Closed => r == NextStep::Finish && final(sinks)@ == old(sinks)@,
        },
{
    match receipt {
        Receipt::Item(m) => {
            let mut rest: Vec<Sink> = Vec::new();
            std::mem::swap(sinks, &mut rest);
            let ghost orig = rest@;
            while rest.len() > 0
                invariant
                    sinks@.len() + rest@.len() == orig.len(),
                    rest@ == orig.skip(sinks@.len() as int),
                    forall|i: int|
                        0 <= i < sinks@.len() ==> appended(orig[i], #[trigger] sinks@[i], m@),
                decreases rest@.len(),
            {
                let ghost k = sinks@.len() as int;
                let mut s = rest.remove(0);
                assert(orig.skip(k + 1) =~= orig.skip(k).drop_first());
                s.add_measurement(&m);
                sinks.push(s);
            }
            NextStep::Continue
        },
        Receipt::Empty => NextStep::Continue,
        Receipt::Closed => NextStep::Finish,
    }
}

} // verus!
