//! The trigger task's decisions: what to ask for, and when to stop.
//!
//! The surrounding loop waits on a fixed-length timer raced against a stop
//! signal, two one-shot startup waits included; whichever resolves first is
//! reported here, and the decision — issue another forecast request or end
//! the loop — is taken here.

use vstd::prelude::*;
use crate::web_requests::WebRequestEvents;

verus! {

/// What resolved first in one wait: the timer, or the stop signal.
#[derive(Clone, Copy, Debug, PartialEq, Eq, Structural)]
pub enum TriggerOutcome {
    TimerElapsed,
    StopRequested,
}

/// What the trigger task does next: issue a request and keep looping, or
/// end the loop for good.
#[derive(Clone, Copy, Debug, PartialEq, Eq, Structural)]
pub enum SchedulerAction {
    SendRequest(WebRequestEvents),
    Stop,
}

/// The one-shot requests issued at startup, in order: the time first, so
/// the clock can be seeded, then the first forecast.
pub fn startup_requests() -> (r: Vec<WebRequestEvents>)
    ensures
        r@ == seq![WebRequestEvents::GetTime, WebRequestEvents::UpdateForecast],
{
    let mut r: Vec<WebRequestEvents> = Vec::new();
    r.push(WebRequestEvents::GetTime);
    r.push(WebRequestEvents::UpdateForecast);
    proof {
        assert(r@ =~= seq![WebRequestEvents::GetTime, WebRequestEvents::UpdateForecast]);
    }
    r
}

/// One turn of the periodic loop: an elapsed timer asks for a fresh
/// forecast; the stop signal ends the loop, and nothing else ever does.
pub fn trigger_step(outcome: TriggerOutcome) -> (r: SchedulerAction)
    ensures
        outcome == TriggerOutcome::TimerElapsed ==> r == SchedulerAction::SendRequest(
            WebRequestEvents::UpdateForecast,
        ),
        outcome == TriggerOutcome::StopRequested ==> r == SchedulerAction::Stop,
{
    match outcome {
        TriggerOutcome::TimerElapsed => SchedulerAction::SendRequest(
            WebRequestEvents::UpdateForecast,
        ),
        TriggerOutcome::StopRequested => SchedulerAction::Stop,
    }
}

} // verus!
