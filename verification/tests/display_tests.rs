use home_display::datetime::{DateTime, DayOfWeek};
use home_display::display::{
    draw_blue_sky_notification, draw_current_outside_weather, draw_scd_data, draw_time,
    draw_weather_forecast_box, handle_state, BlueSkyNotificationData, DrawCommand,
    InsideSensorData, Point,
};
use home_display::events::{apply_event, GeneralEvents, State};
use home_display::parse::ParseError;
use home_display::response_models::{Current, CurrentUnits, Daily, DailyUnits, ForecastResponse};

fn texts(commands: &[DrawCommand]) -> Vec<String> {
    commands
        .iter()
        .filter_map(|c| match c {
            DrawCommand::Text { text, .. } => Some(text.clone()),
            _ => None,
        })
        .collect()
}

fn tuesday_noon() -> DateTime {
    DateTime {
        year: 2024,
        month: 12,
        day: 10,
        day_of_week: DayOfWeek::Tuesday,
        hour: 12,
        minute: 3,
        second: 0,
    }
}

#[test]
fn forecast_box_floors_daily_extremes() {
    let mut display: Vec<DrawCommand> = Vec::new();
    // A daily entry of max 75.7 and min 60.2 degrees, carried in tenths.
    draw_weather_forecast_box(
        Point { x: 0, y: 145 },
        80,
        "2024-12-10",
        "°F",
        757,
        602,
        61,
        "2024-12-10T06:37",
        "2024-12-10T16:30",
        None,
        0,
        &mut display,
    )
    .expect("well-formed strings draw");
    let texts = texts(&display);
    // Both extremes are floored, not rounded, before the units join in.
    assert!(texts.contains(&"75°F/60°F".to_string()));
}

#[test]
fn forecast_box_floors_negative_extremes_downward() {
    let mut display: Vec<DrawCommand> = Vec::new();
    draw_weather_forecast_box(
        Point { x: 0, y: 145 },
        80,
        "2024-12-10",
        "°C",
        -5,
        -102,
        0,
        "2024-12-10T06:37",
        "2024-12-10T16:30",
        None,
        0,
        &mut display,
    )
    .unwrap();
    let texts = texts(&display);
    // Floor of -0.5 is -1, floor of -10.2 is -11.
    assert!(texts.contains(&"-1°C/-11°C".to_string()));
}

#[test]
fn forecast_box_rejects_malformed_date() {
    let mut display: Vec<DrawCommand> = Vec::new();
    let r = draw_weather_forecast_box(
        Point { x: 0, y: 145 },
        80,
        "12/10/2024",
        "°F",
        757,
        602,
        61,
        "2024-12-10T06:37",
        "2024-12-10T16:30",
        None,
        0,
        &mut display,
    );
    assert_eq!(r, Err(ParseError::BadSyntax));
    assert!(display.is_empty());
}

#[test]
fn forecast_box_shows_day_of_week_when_time_is_known() {
    let mut display: Vec<DrawCommand> = Vec::new();
    draw_weather_forecast_box(
        Point { x: 160, y: 145 },
        80,
        "2024-12-12",
        "°F",
        500,
        400,
        0,
        "2024-12-12T06:37",
        "2024-12-12T16:30",
        Some(tuesday_noon()),
        2,
        &mut display,
    )
    .unwrap();
    // Two days past Tuesday is Thursday.
    assert!(texts(&display).contains(&"Thu".to_string()));
}

#[test]
fn birthdays_get_their_cake() {
    let mut display: Vec<DrawCommand> = Vec::new();
    draw_weather_forecast_box(
        Point { x: 0, y: 145 },
        80,
        "2024-12-08",
        "°F",
        500,
        400,
        0,
        "2024-12-08T06:37",
        "2024-12-08T16:30",
        None,
        0,
        &mut display,
    )
    .unwrap();
    // The header writes the date as 12/8, and that is a marked day.
    assert!(display.contains(&DrawCommand::Bitmap {
        x: 54,
        y: 146,
        name: "birthday_cake_24".to_string()
    }));

    let mut display: Vec<DrawCommand> = Vec::new();
    draw_weather_forecast_box(
        Point { x: 0, y: 145 },
        80,
        "2024-12-09",
        "°F",
        500,
        400,
        0,
        "2024-12-09T06:37",
        "2024-12-09T16:30",
        None,
        0,
        &mut display,
    )
    .unwrap();
    assert!(!display
        .iter()
        .any(|c| matches!(c, DrawCommand::Bitmap { name, .. } if name == "birthday_cake_24")));
}

#[test]
fn clock_region_shows_twelve_hour_time() {
    let mut display: Vec<DrawCommand> = Vec::new();
    draw_time(tuesday_noon(), &mut display);
    assert_eq!(display.len(), 2);
    // The region is blanked first.
    assert_eq!(
        display[0],
        DrawCommand::Rect {
            x: 0,
            y: 0,
            width: 155,
            height: 25,
            black_stroke: false
        }
    );
    assert_eq!(texts(&display), vec!["12:03 PM 12/10/2024".to_string()]);

    let mut display: Vec<DrawCommand> = Vec::new();
    let mut midnight = tuesday_noon();
    midnight.hour = 0;
    midnight.minute = 7;
    draw_time(midnight, &mut display);
    assert_eq!(texts(&display), vec!["12:07 AM 12/10/2024".to_string()]);

    let mut display: Vec<DrawCommand> = Vec::new();
    let mut evening = tuesday_noon();
    evening.hour = 21;
    evening.minute = 45;
    draw_time(evening, &mut display);
    assert_eq!(texts(&display), vec!["09:45 PM 12/10/2024".to_string()]);
}

#[test]
fn sensor_region_rounds_each_reading() {
    let reading = InsideSensorData {
        co2: 800,
        temperature: 225,
        humidity: 404,
    };
    let mut display: Vec<DrawCommand> = Vec::new();
    draw_scd_data(Point { x: 5, y: 50 }, reading, false, &mut display);
    // 22.5 degrees rounds half away from zero to 23.
    assert_eq!(texts(&display), vec!["23°C", "40%", "800ppm"]);

    let mut display: Vec<DrawCommand> = Vec::new();
    draw_scd_data(Point { x: 5, y: 50 }, reading, true, &mut display);
    // 22.5 C is 72.5 F, which rounds to 73.
    assert_eq!(texts(&display), vec!["73°F", "40%", "800ppm"]);
}

#[test]
fn current_conditions_show_icon_and_units() {
    let current = Current {
        time: "2024-12-10T11:45".to_string(),
        interval: 900,
        temperature_2m: 456,
        relative_humidity_2m: 80,
        weather_code: 61,
    };
    let units = CurrentUnits {
        time: "iso8601".to_string(),
        interval: "seconds".to_string(),
        temperature_2m: "°F".to_string(),
        relative_humidity_2m: "%".to_string(),
    };
    let mut display: Vec<DrawCommand> = Vec::new();
    draw_current_outside_weather(Point { x: 85, y: 50 }, &current, &units, true, &mut display);
    assert_eq!(
        display[0],
        DrawCommand::Bitmap {
            x: 85,
            y: 35,
            name: "rain".to_string()
        }
    );
    assert_eq!(texts(&display), vec!["45.6°F", "80%"]);

    // After sunset the night icon is shown instead.
    let mut display: Vec<DrawCommand> = Vec::new();
    draw_current_outside_weather(Point { x: 85, y: 50 }, &current, &units, false, &mut display);
    assert_eq!(
        display[0],
        DrawCommand::Bitmap {
            x: 85,
            y: 35,
            name: "nt_clear".to_string()
        }
    );
}

#[test]
fn notification_region_shows_count_and_text() {
    let data = BlueSkyNotificationData {
        unread_notifications: 3,
        last_notification: "somebody\nhas liked your post".to_string(),
    };
    let mut display: Vec<DrawCommand> = Vec::new();
    draw_blue_sky_notification(Point { x: 160, y: 0 }, &data, &mut display);
    assert_eq!(
        display[0],
        DrawCommand::Bitmap {
            x: 170,
            y: 0,
            name: "bluesky_logo".to_string()
        }
    );
    assert_eq!(
        texts(&display),
        vec!["3", "somebody\nhas liked your post"]
    );
}

fn sample_forecast() -> ForecastResponse {
    ForecastResponse {
        current_units: CurrentUnits {
            time: "iso8601".to_string(),
            interval: "seconds".to_string(),
            temperature_2m: "°F".to_string(),
            relative_humidity_2m: "%".to_string(),
        },
        current: Current {
            time: "2024-12-10T11:45".to_string(),
            interval: 900,
            temperature_2m: 456,
            relative_humidity_2m: 80,
            weather_code: 61,
        },
        daily_units: DailyUnits {
            time: "iso8601".to_string(),
            temperature_2m_max: "°F".to_string(),
            temperature_2m_min: "°F".to_string(),
            precipitation_probability_max: "%".to_string(),
        },
        daily: Daily {
            time: vec![
                "2024-12-10".to_string(),
                "2024-12-11".to_string(),
                "2024-12-12".to_string(),
                "2024-12-13".to_string(),
                "2024-12-14".to_string(),
            ],
            weather_code: vec![61, 0, 3, 71, 95],
            temperature_2m_max: vec![757, 601, 550, 402, 400],
            temperature_2m_min: vec![602, 453, 358, 201, 222],
            sunrise: vec![
                "2024-12-10T06:37".to_string(),
                "2024-12-11T06:38".to_string(),
                "2024-12-12T06:39".to_string(),
                "2024-12-13T06:40".to_string(),
                "2024-12-14T06:41".to_string(),
            ],
            sunset: vec![
                "2024-12-10T16:30".to_string(),
                "2024-12-11T16:30".to_string(),
                "2024-12-12T16:31".to_string(),
                "2024-12-13T16:31".to_string(),
                "2024-12-14T16:32".to_string(),
            ],
            precipitation_probability_max: vec![80, 10, 0, 55, 90],
        },
    }
}

#[test]
fn forecast_snapshot_draws_five_boxes_and_current_conditions() {
    let mut state = State::new();
    apply_event(
        &mut state,
        GeneralEvents::ForecastUpdated(sample_forecast()),
    );
    let mut display: Vec<DrawCommand> = Vec::new();
    let refresh = handle_state(&state, true, &mut display).expect("a decoded forecast draws");
    assert!(refresh);
    // Five boxes of two rectangles each, nothing else rectangular.
    let rects = display
        .iter()
        .filter(|c| matches!(c, DrawCommand::Rect { .. }))
        .count();
    assert_eq!(rects, 10);
    // With no clock tick seen yet, daytime is assumed: the rain icon.
    assert!(display.contains(&DrawCommand::Bitmap {
        x: 85,
        y: 35,
        name: "rain".to_string()
    }));
    // The first day's floored extremes appear.
    assert!(texts(&display).contains(&"75°F/60°F".to_string()));
}

#[test]
fn time_set_snapshot_is_not_the_displays_business() {
    let mut state = State::new();
    apply_event(
        &mut state,
        GeneralEvents::TimeFromApi(tuesday_noon()),
    );
    let mut display: Vec<DrawCommand> = Vec::new();
    let refresh = handle_state(&state, true, &mut display).unwrap();
    assert!(!refresh);
    assert!(display.is_empty());
}

#[test]
fn clock_tick_snapshot_redraws_clock_and_pushes() {
    let mut state = State::new();
    apply_event(
        &mut state,
        GeneralEvents::TimeDigitChanged(tuesday_noon()),
    );
    let mut display: Vec<DrawCommand> = Vec::new();
    let refresh = handle_state(&state, true, &mut display).unwrap();
    assert!(refresh);
    assert_eq!(texts(&display), vec!["12:03 PM 12/10/2024".to_string()]);
}
