//! The clock task: seed the hardware clock once, then tick on visible
//! change.
//!
//! The task starts out waiting for a snapshot that carries a network
//! timestamp.  A valid timestamp is written to the hardware clock exactly
//! once; an invalid one is rejected with the offending field named, and the
//! task keeps waiting for another.  After the one successful write the task
//! only polls the clock, emitting a tick event when — and only when — the
//! displayed hour or minute differs from the previous poll, which bounds
//! how often downstream consumers redraw.
//!
//! The surrounding loop performs the hardware reads and writes; every
//! decision it acts on is taken here.

use vstd::prelude::*;
use crate::datetime::{DateTime, DateTimeError, spec_datetime_fault, spec_valid_datetime,
    validate_datetime};
use crate::events::{GeneralEvents, State, StateChanges};

verus! {

/// Where the clock task stands: still waiting for a network timestamp, or
/// polling the hardware clock, remembering the hour and minute it last
/// showed.
#[derive(Clone, Copy, Debug, PartialEq, Eq, Structural)]
pub enum RtcTaskState {
    WaitingForNetworkTime,
    Running { hour: u8, minute: u8 },
}

/// What to do with a received snapshot: nothing, write the carried
/// timestamp into the hardware clock, or log why the clock would reject it
/// and keep waiting.
#[derive(Clone, Copy, Debug, PartialEq, Eq, Structural)]
pub enum RtcSnapshotDecision {
    Ignore,
    Apply(DateTime),
    Reject(DateTimeError),
}

/// One thing the clock task's loop observes: a published snapshot while
/// waiting, or the hardware clock's current value while polling.
#[derive(Debug, Clone)]
pub enum RtcInput {
    Snapshot(State),
    PollTime(DateTime),
}

/// The decision a snapshot earns.  Only a waiting task reads snapshots; a
/// time-set snapshot carrying a valid timestamp is applied, one carrying an
/// invalid timestamp is rejected with the first bad field.
pub open spec fn spec_rtc_on_snapshot(st: RtcTaskState, snap: State) -> RtcSnapshotDecision {
    if st is Running {
        RtcSnapshotDecision::Ignore
    } else if snap.state_change == StateChanges::TimeSet && snap.date_time_from_api is Some {
        let ts = snap.date_time_from_api->0;
        if spec_valid_datetime(ts) {
            RtcSnapshotDecision::Apply(ts)
        } else {
            RtcSnapshotDecision::Reject(spec_datetime_fault(ts)->0)
        }
    } else {
        RtcSnapshotDecision::Ignore
    }
}

/// Decides what a received snapshot means for the clock.
pub fn rtc_on_snapshot(st: &RtcTaskState, snap: &State) -> (d: RtcSnapshotDecision)
    ensures
        d == spec_rtc_on_snapshot(*st, *snap),
{
    match st {
        RtcTaskState::Running { .. } => RtcSnapshotDecision::Ignore,
        RtcTaskState::WaitingForNetworkTime => {
            if snap.state_change == StateChanges::TimeSet {
                match &snap.date_time_from_api {
                    Some(ts) => match validate_datetime(ts) {
                        Ok(()) => RtcSnapshotDecision::Apply(*ts),
                        Err(e) => RtcSnapshotDecision::Reject(e),
                    },
                    None => RtcSnapshotDecision::Ignore,
                }
            } else {
                RtcSnapshotDecision::Ignore
            }
        },
    }
}

/// After the one successful clock write, the task reads the clock back,
/// announces that value as the first tick, and starts polling.  The
/// remembered hour and minute start at zero, so the first poll re-emits
/// unless the clock actually shows midnight — exactly the behaviour the
/// device has always had.
pub fn rtc_after_apply(read_back: DateTime) -> (r: (RtcTaskState, GeneralEvents))
    ensures
        r.0 == (RtcTaskState::Running { hour: 0, minute: 0 }),
        r.1 == GeneralEvents::TimeDigitChanged(read_back),
{
    (RtcTaskState::Running { hour: 0, minute: 0 }, GeneralEvents::TimeDigitChanged(read_back))
}

/// Whether a poll of the clock warrants a tick: only when the displayed
/// hour or minute moved since the previous poll.
pub open spec fn spec_should_emit_tick(hour: u8, minute: u8, now: DateTime) -> bool {
    now.hour != hour || now.minute != minute
}

/// One poll of the hardware clock.  Emits a tick exactly when the
/// displayed hour or minute differs from the previous poll, and then
/// remembers the new pair; an unchanged time emits nothing and moves
/// nothing.
pub fn rtc_poll(st: &mut RtcTaskState, now: DateTime) -> (t: Option<GeneralEvents>)
    requires
        *old(st) is Running,
    ensures
        t is Some <==> spec_should_emit_tick((*old(st))->Running_hour, (*old(st))->Running_minute, now),
        t matches Some(e) ==> {
            &&& e == GeneralEvents::TimeDigitChanged(now)
            &&& *final(st) == (RtcTaskState::Running { hour: now.hour, minute: now.minute })
        },
        t is None ==> *final(st) == *old(st),
{
    let (hour, minute) = match *st {
        RtcTaskState::Running { hour, minute } => (hour, minute),
        RtcTaskState::WaitingForNetworkTime => (0, 0),
    };
    if now.hour != hour || now.minute != minute {
        *st = RtcTaskState::Running { hour: now.hour, minute: now.minute };
        Some(GeneralEvents::TimeDigitChanged(now))
    } else {
        None
    }
}

/// The task state after one observed input.
pub open spec fn spec_rtc_next(st: RtcTaskState, input: RtcInput) -> RtcTaskState {
    match input {
        RtcInput::Snapshot(snap) => {
            if spec_rtc_on_snapshot(st, snap) is Apply {
                RtcTaskState::Running { hour: 0, minute: 0 }
            } else {
                st
            }
        },
        RtcInput::PollTime(now) => {
            match st {
                RtcTaskState::Running { hour, minute } => {
                    if spec_should_emit_tick(hour, minute, now) {
                        RtcTaskState::Running { hour: now.hour, minute: now.minute }
                    } else {
                        st
                    }
                },
                RtcTaskState::WaitingForNetworkTime => st,
            }
        },
    }
}

/// Whether this input makes the task write the hardware clock.
pub open spec fn spec_rtc_applies(st: RtcTaskState, input: RtcInput) -> bool {
    match input {
        RtcInput::Snapshot(snap) => spec_rtc_on_snapshot(st, snap) is Apply,
        RtcInput::PollTime(_) => false,
    }
}

/// The task state after a whole run of observed inputs, oldest first.
pub open spec fn spec_rtc_run(st: RtcTaskState, inputs: Seq<RtcInput>) -> RtcTaskState
    decreases inputs.len(),
{
    if inputs.len() == 0 {
        st
    } else {
        spec_rtc_run(spec_rtc_next(st, inputs.first()), inputs.drop_first())
    }
}

/// How many clock writes a run of inputs causes.
pub open spec fn spec_rtc_apply_count(st: RtcTaskState, inputs: Seq<RtcInput>) -> nat
    decreases inputs.len(),
{
    if inputs.len() == 0 {
        0
    } else {
        (if spec_rtc_applies(st, inputs.first()) {
            1nat
        } else {
            0nat
        }) + spec_rtc_apply_count(spec_rtc_next(st, inputs.first()), inputs.drop_first())
    }
}

/// A running task never writes the clock again and never leaves the
/// running state, whatever else it observes.
pub proof fn lemma_running_never_reapplies(st: RtcTaskState, inputs: Seq<RtcInput>)
    requires
        st is Running,
    ensures
        spec_rtc_run(st, inputs) is Running,
        spec_rtc_apply_count(st, inputs) == 0,
    decreases inputs.len(),
{
    if inputs.len() > 0 {
        lemma_running_never_reapplies(spec_rtc_next(st, inputs.first()), inputs.drop_first());
    }
}

/// The network timestamp is applied to the hardware clock at most once per
/// boot: over any run of observed inputs, from any starting state, the
/// clock is written at most once — and a waiting task whose next snapshot
/// carries a valid time-set timestamp writes it then and there, leaving the
/// waiting state for good.
pub proof fn lemma_time_applied_at_most_once(st: RtcTaskState, inputs: Seq<RtcInput>)
    ensures
        spec_rtc_apply_count(st, inputs) <= 1,
        st is Running ==> spec_rtc_apply_count(st, inputs) == 0,
    decreases inputs.len(),
{
    if st is Running {
        lemma_running_never_reapplies(st, inputs);
    } else if inputs.len() > 0 {
        let next = spec_rtc_next(st, inputs.first());
        if spec_rtc_applies(st, inputs.first()) {
            lemma_running_never_reapplies(next, inputs.drop_first());
        } else {
            lemma_time_applied_at_most_once(next, inputs.drop_first());
        }
    }
}

} // verus!
