use home_display::datetime::{DateTime, DateTimeError, DayOfWeek};
use home_display::events::{apply_event, GeneralEvents, State};
use home_display::rtc::{
    rtc_after_apply, rtc_on_snapshot, rtc_poll, RtcSnapshotDecision, RtcTaskState,
};

fn ts(hour: u8, minute: u8) -> DateTime {
    DateTime {
        year: 2024,
        month: 12,
        day: 10,
        day_of_week: DayOfWeek::Tuesday,
        hour,
        minute,
        second: 30,
    }
}

fn time_set_snapshot(t: DateTime) -> State {
    let mut state = State::new();
    apply_event(&mut state, GeneralEvents::TimeFromApi(t));
    state
}

#[test]
fn waiting_task_applies_a_valid_time_set() {
    let snap = time_set_snapshot(ts(11, 45));
    let d = rtc_on_snapshot(&RtcTaskState::WaitingForNetworkTime, &snap);
    assert_eq!(d, RtcSnapshotDecision::Apply(ts(11, 45)));
}

#[test]
fn waiting_task_rejects_an_invalid_time_set_with_the_bad_field() {
    let mut bad = ts(11, 45);
    bad.month = 13;
    let snap = time_set_snapshot(bad);
    let d = rtc_on_snapshot(&RtcTaskState::WaitingForNetworkTime, &snap);
    assert_eq!(d, RtcSnapshotDecision::Reject(DateTimeError::InvalidMonth));
}

#[test]
fn waiting_task_ignores_other_snapshots() {
    let state = State::new();
    let d = rtc_on_snapshot(&RtcTaskState::WaitingForNetworkTime, &state);
    assert_eq!(d, RtcSnapshotDecision::Ignore);
}

#[test]
fn running_task_never_applies_again() {
    // Once running, even a fresh valid time-set snapshot is ignored.
    let snap = time_set_snapshot(ts(11, 45));
    let d = rtc_on_snapshot(&RtcTaskState::Running { hour: 3, minute: 4 }, &snap);
    assert_eq!(d, RtcSnapshotDecision::Ignore);
}

#[test]
fn after_the_one_apply_the_task_polls_and_announces() {
    let (state, event) = rtc_after_apply(ts(11, 45));
    assert_eq!(state, RtcTaskState::Running { hour: 0, minute: 0 });
    assert_eq!(event, GeneralEvents::TimeDigitChanged(ts(11, 45)));
}

#[test]
fn tick_fires_only_when_the_displayed_time_moves() {
    let mut st = RtcTaskState::Running { hour: 11, minute: 45 };
    // Same hour and minute: no tick, whatever the seconds do.
    assert!(rtc_poll(&mut st, ts(11, 45)).is_none());
    assert_eq!(st, RtcTaskState::Running { hour: 11, minute: 45 });
    // The minute moves: one tick, and the new pair is remembered.
    let tick = rtc_poll(&mut st, ts(11, 46)).expect("a moved minute ticks");
    assert_eq!(tick, GeneralEvents::TimeDigitChanged(ts(11, 46)));
    assert_eq!(st, RtcTaskState::Running { hour: 11, minute: 46 });
    // Polling the same time again is silent: no duplicate emissions.
    assert!(rtc_poll(&mut st, ts(11, 46)).is_none());
    // The hour alone moving also ticks.
    assert!(rtc_poll(&mut st, ts(12, 46)).is_some());
}
