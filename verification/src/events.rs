//! Domain events and the single-writer state core.
//!
//! Every task that owns a piece of hardware or an external data source
//! reports what it learned as one typed event.  The orchestrator folds each
//! event into the one shared `State` snapshot, tags the snapshot with what
//! changed, and publishes it through a single-slot overwrite channel: a
//! slow consumer misses intermediate snapshots and only ever sees the
//! latest.

use vstd::prelude::*;
use crate::datetime::DateTime;
use crate::display::{BlueSkyNotificationData, BlueSkyNotificationDataView, InsideSensorData};
use crate::response_models::{ForecastResponse, ForecastResponseView};

verus! {

/// What the most recent event changed in the snapshot.
#[derive(Debug, Clone, Copy, PartialEq, Eq, Structural)]
pub enum StateChanges {
    NoChange,
    ForecastUpdated,
    OfficeStatusUpdated,
    TimeSet,
    NewTimeDigit,
    SensorUpdate,
    BlueSkyNotificationUpdate,
}

/// One domain event, carrying the value its producer learned.
#[derive(Debug, Clone, PartialEq)]
pub enum GeneralEvents {
    ForecastUpdated(ForecastResponse),
    TimeFromApi(DateTime),
    TimeDigitChanged(DateTime),
    SensorUpdate(InsideSensorData),
    BlueSkyNotificationUpdate(BlueSkyNotificationData),
}

/// The name of an event's kind, as the device logs it.
pub open spec fn spec_event_name(e: GeneralEvents) -> Seq<char> {
    match e {
        GeneralEvents::ForecastUpdated(_) => "ForecastUpdated"@,
        GeneralEvents::TimeFromApi(_) => "TimeFromApi"@,
        GeneralEvents::TimeDigitChanged(_) => "TimeDigitChanged"@,
        GeneralEvents::SensorUpdate(_) => "SensorUpdate"@,
        GeneralEvents::BlueSkyNotificationUpdate(_) => "BlueSkyNotificationUpdate"@,
    }
}

/// The change tag an event leaves on the snapshot it produces.
pub open spec fn spec_event_tag(e: GeneralEvents) -> StateChanges {
    match e {
        GeneralEvents::ForecastUpdated(_) => StateChanges::ForecastUpdated,
        GeneralEvents::TimeFromApi(_) => StateChanges::TimeSet,
        GeneralEvents::TimeDigitChanged(_) => StateChanges::NewTimeDigit,
        GeneralEvents::SensorUpdate(_) => StateChanges::SensorUpdate,
        GeneralEvents::BlueSkyNotificationUpdate(_) => StateChanges::BlueSkyNotificationUpdate,
    }
}

impl GeneralEvents {
    pub fn as_str(&self) -> (r: &'static str)
        ensures
            r@ == spec_event_name(*self),
    {
        match self {
            GeneralEvents::ForecastUpdated(_) => "ForecastUpdated",
            GeneralEvents::TimeFromApi(_) => "TimeFromApi",
            GeneralEvents::TimeDigitChanged(_) => "TimeDigitChanged",
            GeneralEvents::SensorUpdate(_) => "SensorUpdate",
            GeneralEvents::BlueSkyNotificationUpdate(_) => "BlueSkyNotificationUpdate",
        }
    }
}

/// The one shared snapshot of display-relevant state.  Only the
/// orchestrator ever writes it; every other task reads published copies.
#[derive(Debug, PartialEq)]
pub struct State {
    pub forecast: Option<ForecastResponse>,
    pub date_time_from_api: Option<DateTime>,
    pub approximately_current_time: Option<DateTime>,
    pub sensor_data: Option<InsideSensorData>,
    pub blue_sky_notification_data: Option<BlueSkyNotificationData>,
    pub state_change: StateChanges,
}

/// Mathematical content of a snapshot.
pub ghost struct StateView {
    pub forecast: Option<ForecastResponseView>,
    pub date_time_from_api: Option<DateTime>,
    pub approximately_current_time: Option<DateTime>,
    pub sensor_data: Option<InsideSensorData>,
    pub blue_sky_notification_data: Option<BlueSkyNotificationDataView>,
    pub state_change: StateChanges,
}

impl View for State {
    type V = StateView;

    open spec fn view(&self) -> StateView {
        StateView {
            forecast: match self.forecast {
                Some(f) => Some(f@),
                None => None,
            },
            date_time_from_api: self.date_time_from_api,
            approximately_current_time: self.approximately_current_time,
            sensor_data: self.sensor_data,
            blue_sky_notification_data: match self.blue_sky_notification_data {
                Some(n) => Some(n@),
                None => None,
            },
            state_change: self.state_change,
        }
    }
}

impl Clone for State {
    fn clone(&self) -> (r: Self)
        ensures
            r@ == self@,
    {
        State {
            forecast: match &self.forecast {
                Some(f) => Some(f.clone()),
                None => None,
            },
            date_time_from_api: self.date_time_from_api,
            approximately_current_time: self.approximately_current_time,
            sensor_data: self.sensor_data,
            blue_sky_notification_data: match &self.blue_sky_notification_data {
                Some(n) => Some(n.clone()),
                None => None,
            },
            state_change: self.state_change,
        }
    }
}

impl State {
    /// The boot snapshot: nothing known yet, nothing changed yet.
    pub fn new() -> (r: State)
        ensures
            r.forecast is None,
            r.date_time_from_api is None,
            r.approximately_current_time is None,
            r.sensor_data is None,
            r.blue_sky_notification_data is None,
            r.state_change == StateChanges::NoChange,
    {
        State {
            forecast: None,
            date_time_from_api: None,
            approximately_current_time: None,
            sensor_data: None,
            blue_sky_notification_data: None,
            state_change: StateChanges::NoChange,
        }
    }
}

/// The snapshot that folding `e` into `s` produces: the matching field
/// holds the event's payload, the change tag names it, and every other
/// field keeps its value.
pub open spec fn spec_apply_event(s: State, e: GeneralEvents) -> State {
    match e {
        GeneralEvents::ForecastUpdated(f) => State {
            forecast: Some(f),
            state_change: StateChanges::ForecastUpdated,
            ..s
        },
        GeneralEvents::TimeFromApi(t) => State {
            date_time_from_api: Some(t),
            state_change: StateChanges::TimeSet,
            ..s
        },
        GeneralEvents::TimeDigitChanged(t) => State {
            approximately_current_time: Some(t),
            state_change: StateChanges::NewTimeDigit,
            ..s
        },
        GeneralEvents::SensorUpdate(d) => State {
            sensor_data: Some(d),
            state_change: StateChanges::SensorUpdate,
            ..s
        },
        GeneralEvents::BlueSkyNotificationUpdate(n) => State {
            blue_sky_notification_data: Some(n),
            state_change: StateChanges::BlueSkyNotificationUpdate,
            ..s
        },
    }
}

/// Folds one event into the snapshot.  The change tag always matches the
/// field the event targeted, and no other field moves.
pub fn apply_event(state: &mut State, event: GeneralEvents)
    ensures
        *final(state) == spec_apply_event(*old(state), event),
        final(state).state_change == spec_event_tag(event),
{
    match event {
        GeneralEvents::ForecastUpdated(forecast_response) => {
            state.forecast = Some(forecast_response);
            state.state_change = StateChanges::ForecastUpdated;
        },
        GeneralEvents::TimeFromApi(time) => {
            state.date_time_from_api = Some(time);
            state.state_change = StateChanges::TimeSet;
        },
        GeneralEvents::TimeDigitChanged(time) => {
            state.approximately_current_time = Some(time);
            state.state_change = StateChanges::NewTimeDigit;
        },
        GeneralEvents::SensorUpdate(sensor_data) => {
            state.sensor_data = Some(sensor_data);
            state.state_change = StateChanges::SensorUpdate;
        },
        GeneralEvents::BlueSkyNotificationUpdate(notification_data) => {
            state.blue_sky_notification_data = Some(notification_data);
            state.state_change = StateChanges::BlueSkyNotificationUpdate;
        },
    }
}

/// The snapshot left after folding a whole sequence of events into `s`,
/// oldest first.
pub open spec fn spec_run_events(s: State, evs: Seq<GeneralEvents>) -> State
    decreases evs.len(),
{
    if evs.len() == 0 {
        s
    } else {
        spec_apply_event(spec_run_events(s, evs.drop_last()), evs.last())
    }
}

/// For every sequence of events fed into the orchestrator, the published
/// change tag matches the field the most recent event targeted — it is
/// never stale relative to the triggering event.
pub proof fn lemma_last_change_matches_last_event(s: State, evs: Seq<GeneralEvents>)
    requires
        evs.len() > 0,
    ensures
        spec_run_events(s, evs).state_change == spec_event_tag(evs.last()),
{
}

/// A failed fetch leaves the previous forecast on screen: as long as no
/// forecast event arrives — and a failed call emits none — folding any
/// other events leaves the snapshot's forecast exactly as it was.
pub proof fn lemma_forecast_stable_without_forecast_event(s: State, evs: Seq<GeneralEvents>)
    requires
        forall|i: int| 0 <= i < evs.len() ==> !(#[trigger] evs[i] is ForecastUpdated),
    ensures
        spec_run_events(s, evs).forecast == s.forecast,
    decreases evs.len(),
{
    if evs.len() > 0 {
        lemma_forecast_stable_without_forecast_event(s, evs.drop_last());
        assert(!(evs[evs.len() - 1] is ForecastUpdated));
    }
}

/// The single-slot snapshot channel: a new snapshot overwrites an
/// unconsumed one, so at most one is ever pending and a reader always gets
/// the latest.
#[derive(Debug, Clone, PartialEq)]
pub struct SnapshotSlot {
    pub slot: Option<State>,
}

impl SnapshotSlot {
    pub fn new() -> (r: SnapshotSlot)
        ensures
            r.slot is None,
    {
        SnapshotSlot { slot: None }
    }

    /// Publishes a snapshot, replacing any unconsumed one.
    pub fn publish(&mut self, s: State)
        ensures
            final(self).slot == Some(s),
    {
        self.slot = Some(s);
    }

    /// Takes the pending snapshot, leaving the slot empty.
    pub fn take(&mut self) -> (r: Option<State>)
        ensures
            r == old(self).slot,
            final(self).slot is None,
    {
        self.slot.take()
    }
}

/// One turn of the orchestrator's loop: fold the received event into the
/// owned snapshot and publish the new value, overwriting any unconsumed
/// one.
pub fn orchestrate_step(state: &mut State, consumer: &mut SnapshotSlot, event: GeneralEvents)
    ensures
        *final(state) == spec_apply_event(*old(state), event),
        final(consumer).slot matches Some(published) && published@ == final(state)@,
{
    apply_event(state, event);
    consumer.publish(state.clone());
}

} // verus!
