use home_display::display::{DrawCommand, InsideSensorData};
use home_display::events::{
    apply_event, orchestrate_step, GeneralEvents, SnapshotSlot, State, StateChanges,
};

#[test]
fn new_state_is_empty() {
    let state = State::new();
    assert!(state.forecast.is_none());
    assert!(state.date_time_from_api.is_none());
    assert!(state.approximately_current_time.is_none());
    assert!(state.sensor_data.is_none());
    assert!(state.blue_sky_notification_data.is_none());
    assert_eq!(state.state_change, StateChanges::NoChange);
}

#[test]
fn sensor_update_event_sets_field_and_tag() {
    let mut state = State::new();
    let reading = InsideSensorData {
        co2: 800,
        temperature: 225,
        humidity: 400,
    };
    apply_event(&mut state, GeneralEvents::SensorUpdate(reading));
    assert_eq!(state.sensor_data, Some(reading));
    assert_eq!(state.state_change, StateChanges::SensorUpdate);
    assert!(state.forecast.is_none());
    assert!(state.approximately_current_time.is_none());
}

#[test]
fn sensor_update_snapshot_redraws_only_sensor_region() {
    let mut state = State::new();
    let mut slot = SnapshotSlot::new();
    let reading = InsideSensorData {
        co2: 800,
        temperature: 225,
        humidity: 400,
    };
    orchestrate_step(
        &mut state,
        &mut slot,
        GeneralEvents::SensorUpdate(reading),
    );
    let snapshot = slot.take().expect("a snapshot must be pending");
    assert_eq!(snapshot.state_change, StateChanges::SensorUpdate);
    assert_eq!(snapshot.sensor_data, Some(reading));

    let mut display: Vec<DrawCommand> = Vec::new();
    let refresh = home_display::display::handle_state(&snapshot, false, &mut display)
        .expect("a sensor snapshot always draws");
    // The sensor region: house icon plus three readings, and nothing else.
    assert_eq!(display.len(), 4);
    assert_eq!(
        display[0],
        DrawCommand::Bitmap {
            x: 5,
            y: 50,
            name: "house_fill".to_string()
        }
    );
    // Every redraw path pushes the frame and puts the panel back to sleep.
    assert!(refresh);
}

#[test]
fn last_change_tracks_the_most_recent_event() {
    let mut state = State::new();
    let reading = InsideSensorData {
        co2: 500,
        temperature: 210,
        humidity: 395,
    };
    apply_event(&mut state, GeneralEvents::SensorUpdate(reading));
    let tick = home_display::datetime::DateTime {
        year: 2024,
        month: 12,
        day: 10,
        day_of_week: home_display::datetime::DayOfWeek::Tuesday,
        hour: 11,
        minute: 45,
        second: 0,
    };
    apply_event(&mut state, GeneralEvents::TimeDigitChanged(tick));
    assert_eq!(state.state_change, StateChanges::NewTimeDigit);
    // The earlier update is still there; only the tag moved.
    assert_eq!(state.sensor_data, Some(reading));
    assert_eq!(state.approximately_current_time, Some(tick));
}

#[test]
fn snapshot_slot_overwrites_unconsumed_value() {
    let mut state = State::new();
    let mut slot = SnapshotSlot::new();
    let first = InsideSensorData {
        co2: 500,
        temperature: 210,
        humidity: 395,
    };
    let second = InsideSensorData {
        co2: 900,
        temperature: 230,
        humidity: 410,
    };
    orchestrate_step(&mut state, &mut slot, GeneralEvents::SensorUpdate(first));
    orchestrate_step(&mut state, &mut slot, GeneralEvents::SensorUpdate(second));
    // A slow consumer sees only the latest snapshot.
    let snapshot = slot.take().expect("a snapshot must be pending");
    assert_eq!(snapshot.sensor_data, Some(second));
    assert!(slot.take().is_none());
}

#[test]
fn event_names_match_their_kind() {
    let reading = InsideSensorData {
        co2: 1,
        temperature: 2,
        humidity: 3,
    };
    assert_eq!(
        GeneralEvents::SensorUpdate(reading).as_str(),
        "SensorUpdate"
    );
}
