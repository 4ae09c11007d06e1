use home_display::datetime::{
    datetime_error_message, validate_datetime, DateTime, DateTimeError, DayOfWeek,
};
use home_display::parse::{
    format_date, format_long_datetime, format_short_datetime, return_str_time, ParseError,
};

#[test]
fn date_layout_parses() {
    let dt = format_date("2024-12-10").expect("a well-formed date parses");
    assert_eq!(dt.year, 2024);
    assert_eq!(dt.month, 12);
    assert_eq!(dt.day, 10);
    assert_eq!(dt.day_of_week, DayOfWeek::Sunday);
    assert_eq!(dt.hour, 0);
    assert_eq!(dt.minute, 0);
    assert_eq!(dt.second, 0);
}

#[test]
fn short_date_is_too_short() {
    assert_eq!(format_date("2024-12"), Err(ParseError::TooShort));
}

#[test]
fn garbled_date_is_bad_syntax() {
    assert_eq!(format_date("2024/12/10"), Err(ParseError::BadSyntax));
    assert_eq!(format_date("2o24-12-10"), Err(ParseError::BadSyntax));
    assert_eq!(format_date("2024-12-10X"), Err(ParseError::BadSyntax));
}

#[test]
fn short_datetime_layout_parses() {
    let dt = format_short_datetime("2024-12-10T11:45").expect("a sun time parses");
    assert_eq!(dt.year, 2024);
    assert_eq!(dt.month, 12);
    assert_eq!(dt.day, 10);
    assert_eq!(dt.hour, 11);
    assert_eq!(dt.minute, 45);
    assert_eq!(dt.second, 0);
}

#[test]
fn short_datetime_rejects_wrong_layouts() {
    assert_eq!(
        format_short_datetime("2024-12-10T11"),
        Err(ParseError::TooShort)
    );
    assert_eq!(
        format_short_datetime("2024-12-10 11:45"),
        Err(ParseError::BadSyntax)
    );
}

#[test]
fn long_datetime_layout_parses_with_day_of_week() {
    let dt = format_long_datetime("2024-12-10T12:03:59.253687-06:00", Some(2))
        .expect("the time service's moment parses");
    assert_eq!(dt.year, 2024);
    assert_eq!(dt.month, 12);
    assert_eq!(dt.day, 10);
    assert_eq!(dt.hour, 12);
    assert_eq!(dt.minute, 3);
    assert_eq!(dt.second, 59);
    assert_eq!(dt.day_of_week, DayOfWeek::Tuesday);
}

#[test]
fn long_datetime_defaults_missing_day_of_week_to_sunday() {
    let dt = format_long_datetime("2024-12-10T12:03:59.1+01:00", None).unwrap();
    assert_eq!(dt.day_of_week, DayOfWeek::Sunday);
    // An out-of-range number also falls back to Sunday.
    let dt = format_long_datetime("2024-12-10T12:03:59.1+01:00", Some(9)).unwrap();
    assert_eq!(dt.day_of_week, DayOfWeek::Sunday);
}

#[test]
fn long_datetime_rejects_malformed_text() {
    assert_eq!(
        format_long_datetime("2024-12-10T12:03", Some(1)),
        Err(ParseError::TooShort)
    );
    assert_eq!(
        format_long_datetime("2024-12-10T12-03-59.253687", Some(1)),
        Err(ParseError::BadSyntax)
    );
}

#[test]
fn time_part_follows_the_first_t() {
    assert_eq!(return_str_time("2024-12-10T11:45"), Ok("11:45"));
    assert_eq!(return_str_time("no separator"), Err(ParseError::BadSyntax));
}

#[test]
fn clock_accepts_only_register_range_timestamps() {
    let good = DateTime {
        year: 2024,
        month: 12,
        day: 10,
        day_of_week: DayOfWeek::Tuesday,
        hour: 11,
        minute: 45,
        second: 30,
    };
    assert!(validate_datetime(&good).is_ok());

    let mut bad = good;
    bad.year = 4096;
    assert_eq!(validate_datetime(&bad), Err(DateTimeError::InvalidYear));
    let mut bad = good;
    bad.month = 13;
    assert_eq!(validate_datetime(&bad), Err(DateTimeError::InvalidMonth));
    let mut bad = good;
    bad.day = 0;
    assert_eq!(validate_datetime(&bad), Err(DateTimeError::InvalidDay));
    let mut bad = good;
    bad.hour = 24;
    assert_eq!(validate_datetime(&bad), Err(DateTimeError::InvalidHour));
    let mut bad = good;
    bad.minute = 60;
    assert_eq!(validate_datetime(&bad), Err(DateTimeError::InvalidMinute));
    let mut bad = good;
    bad.second = 60;
    assert_eq!(validate_datetime(&bad), Err(DateTimeError::InvalidSecond));
}

#[test]
fn rejected_fields_are_named_for_the_log() {
    assert_eq!(datetime_error_message(DateTimeError::InvalidYear), "Invalid year");
    assert_eq!(datetime_error_message(DateTimeError::InvalidMonth), "Invalid month");
    assert_eq!(datetime_error_message(DateTimeError::InvalidDay), "Invalid day");
    assert_eq!(datetime_error_message(DateTimeError::InvalidHour), "Invalid hour");
    assert_eq!(datetime_error_message(DateTimeError::InvalidMinute), "Invalid minute");
    assert_eq!(datetime_error_message(DateTimeError::InvalidSecond), "Invalid second");
}
