use home_display::codec::{
    decode_error_message, decode_forecast, decode_time_response, display_subset,
    encode_display_subset, parse_display_subset, DecodeError, DisplayDay,
};

fn sample_forecast_json() -> String {
    "{\"current_units\":{\"time\":\"iso8601\",\"interval\":\"seconds\",\"temperature_2m\":\"°F\",\"relative_humidity_2m\":\"%\"},\"current\":{\"time\":\"2024-12-10T11:45\",\"interval\":900,\"temperature_2m\":45.6,\"relative_humidity_2m\":80,\"weather_code\":61},\"daily_units\":{\"time\":\"iso8601\",\"temperature_2m_max\":\"°F\",\"temperature_2m_min\":\"°F\",\"precipitation_probability_max\":\"%\"},\"daily\":{\"time\":[\"2024-12-10\",\"2024-12-11\",\"2024-12-12\",\"2024-12-13\",\"2024-12-14\"],\"weather_code\":[61,0,3,71,95],\"temperature_2m_max\":[75.7,60.1,55.0,40.2,-0.5],\"temperature_2m_min\":[60.2,45.3,35.8,20.1,-10.2],\"sunrise\":[\"2024-12-10T06:37\",\"2024-12-11T06:38\",\"2024-12-12T06:39\",\"2024-12-13T06:40\",\"2024-12-14T06:41\"],\"sunset\":[\"2024-12-10T16:30\",\"2024-12-11T16:30\",\"2024-12-12T16:31\",\"2024-12-13T16:31\",\"2024-12-14T16:32\"],\"precipitation_probability_max\":[80,10,0,55,90]}}"
    .to_string()
}

#[test]
fn forecast_answer_decodes_to_typed_record() {
    let f = decode_forecast(&sample_forecast_json()).expect("a bare four-member body decodes");
    assert_eq!(f.current_units.temperature_2m, "°F");
    assert_eq!(f.current.time, "2024-12-10T11:45");
    assert_eq!(f.current.interval, 900);
    // 45.6 degrees arrives as 456 tenths.
    assert_eq!(f.current.temperature_2m, 456);
    assert_eq!(f.current.relative_humidity_2m, 80);
    assert_eq!(f.current.weather_code, 61);
    assert_eq!(f.daily.time.len(), 5);
    assert_eq!(f.daily.time[0], "2024-12-10");
    assert_eq!(f.daily.weather_code, vec![61, 0, 3, 71, 95]);
    assert_eq!(f.daily.temperature_2m_max, vec![757, 601, 550, 402, -5]);
    assert_eq!(f.daily.temperature_2m_min, vec![602, 453, 358, 201, -102]);
    assert_eq!(f.daily.sunrise[4], "2024-12-14T06:41");
    assert_eq!(f.daily.sunset[0], "2024-12-10T16:30");
    assert_eq!(f.daily.precipitation_probability_max, vec![80, 10, 0, 55, 90]);
    assert_eq!(f.daily_units.temperature_2m_max, "°F");
}

#[test]
fn four_day_forecast_is_the_wrong_span() {
    let json = "{\"current_units\":{\"time\":\"iso8601\",\"interval\":\"seconds\",\"temperature_2m\":\"°F\",\"relative_humidity_2m\":\"%\"},\"current\":{\"time\":\"2024-12-10T11:45\",\"interval\":900,\"temperature_2m\":45.6,\"relative_humidity_2m\":80,\"weather_code\":61},\"daily_units\":{\"time\":\"iso8601\",\"temperature_2m_max\":\"°F\",\"temperature_2m_min\":\"°F\",\"precipitation_probability_max\":\"%\"},\"daily\":{\"time\":[\"2024-12-10\",\"2024-12-11\",\"2024-12-12\",\"2024-12-13\"],\"weather_code\":[61,0,3,71],\"temperature_2m_max\":[75.7,60.1,55.0,40.2],\"temperature_2m_min\":[60.2,45.3,35.8,20.1],\"sunrise\":[\"2024-12-10T06:37\",\"2024-12-11T06:38\",\"2024-12-12T06:39\",\"2024-12-13T06:40\"],\"sunset\":[\"2024-12-10T16:30\",\"2024-12-11T16:30\",\"2024-12-12T16:31\",\"2024-12-13T16:31\"],\"precipitation_probability_max\":[80,10,0,55]}}";
    assert_eq!(decode_forecast(json), Err(DecodeError::WrongDayCount));
}

#[test]
fn malformed_forecast_is_a_token_error() {
    assert_eq!(
        decode_forecast("not a forecast"),
        Err(DecodeError::ExpectedToken)
    );
    assert_eq!(decode_forecast(""), Err(DecodeError::ExpectedToken));
}

#[test]
fn leading_zero_is_an_invalid_number() {
    // The layout refuses numbers with leading zeros; a whole attempt
    // therefore fails before any day count matches.
    let json = sample_forecast_json().replace("\"interval\":900", "\"interval\":0900");
    assert!(decode_forecast(&json).is_err());
}

#[test]
fn decode_errors_name_themselves() {
    assert_eq!(
        decode_error_message(DecodeError::ExpectedToken),
        "Deserialization error: ExpectedToken"
    );
    assert_eq!(
        decode_error_message(DecodeError::InvalidNumber),
        "Deserialization error: InvalidNumber"
    );
    assert_eq!(
        decode_error_message(DecodeError::WrongDayCount),
        "Deserialization error: WrongDayCount"
    );
}

#[test]
fn time_answer_decodes() {
    let t = decode_time_response(
        "{\"datetime\":\"2024-12-10T12:03:59.253687-06:00\",\"day_of_week\":2}",
    )
    .expect("a bare two-member body decodes");
    assert_eq!(t.datetime, "2024-12-10T12:03:59.253687-06:00");
    assert_eq!(t.day_of_week, 2);
}

#[test]
fn time_answer_rejects_trailing_text() {
    assert_eq!(
        decode_time_response(
            "{\"datetime\":\"2024-12-10T12:03:59.253687-06:00\",\"day_of_week\":2} "
        ),
        Err(DecodeError::ExpectedToken)
    );
}

#[test]
fn display_subset_round_trips_through_its_encoding() {
    let f = decode_forecast(&sample_forecast_json()).unwrap();
    let days = display_subset(&f);
    assert_eq!(days.len(), 5);
    let encoded = encode_display_subset(&days);
    let decoded = parse_display_subset(&encoded).expect("own encoding decodes");
    // Date strings, sun times and both temperatures survive unchanged.
    assert_eq!(decoded, days);
    assert_eq!(decoded[0].date, "2024-12-10");
    assert_eq!(decoded[0].temperature_2m_max, 757);
    assert_eq!(decoded[0].temperature_2m_min, 602);
    assert_eq!(decoded[4].temperature_2m_max, -5);
    assert_eq!(decoded[4].temperature_2m_min, -102);
    assert_eq!(decoded[4].sunrise, "2024-12-14T06:41");
    assert_eq!(decoded[4].sunset, "2024-12-14T16:32");
}

#[test]
fn subset_encoding_is_the_canonical_text() {
    let day = DisplayDay {
        date: "2024-12-10".to_string(),
        temperature_2m_max: 757,
        temperature_2m_min: -5,
        sunrise: "2024-12-10T06:37".to_string(),
        sunset: "2024-12-10T16:30".to_string(),
    };
    let days = vec![day.clone(), day.clone(), day.clone(), day.clone(), day];
    let encoded = encode_display_subset(&days);
    assert!(encoded.starts_with(
        "[{\"date\":\"2024-12-10\",\"max\":75.7,\"min\":-0.5,\"sunrise\":\"2024-12-10T06:37\",\"sunset\":\"2024-12-10T16:30\"},"
    ));
    assert!(encoded.ends_with("}]"));
}

#[test]
fn subset_parse_rejects_wrong_count_or_trailing_text() {
    let day = DisplayDay {
        date: "2024-12-10".to_string(),
        temperature_2m_max: 757,
        temperature_2m_min: 602,
        sunrise: "2024-12-10T06:37".to_string(),
        sunset: "2024-12-10T16:30".to_string(),
    };
    let days = vec![day.clone(), day.clone(), day.clone(), day.clone(), day];
    let mut encoded = encode_display_subset(&days);
    encoded.push(' ');
    assert!(parse_display_subset(&encoded).is_err());
}

fn live_forecast_body() -> String {
    "{\"latitude\":35.75,\"longitude\":-86.9375,\"generationtime_ms\":0.1239776611328125,\"utc_offset_seconds\":-21600,\"timezone\":\"America/Chicago\",\"timezone_abbreviation\":\"CST\",\"elevation\":203.0,\"current_units\":{\"time\":\"iso8601\",\"interval\":\"seconds\",\"temperature_2m\":\"°F\",\"relative_humidity_2m\":\"%\",\"weather_code\":\"wmo code\"},\"current\":{\"time\":\"2024-12-10T11:45\",\"interval\":900,\"temperature_2m\":45.6,\"relative_humidity_2m\":80,\"weather_code\":61},\"daily_units\":{\"time\":\"iso8601\",\"weather_code\":\"wmo code\",\"temperature_2m_max\":\"°F\",\"temperature_2m_min\":\"°F\",\"sunrise\":\"iso8601\",\"sunset\":\"iso8601\",\"precipitation_probability_max\":\"%\"},\"daily\":{\"time\":[\"2024-12-10\",\"2024-12-11\",\"2024-12-12\",\"2024-12-13\",\"2024-12-14\",\"2024-12-15\",\"2024-12-16\"],\"weather_code\":[61,0,3,71,95,2,45],\"temperature_2m_max\":[75.7,60.1,55.0,40.2,40.0,38.5,42.0],\"temperature_2m_min\":[60.2,45.3,35.8,20.1,22.2,25.0,30.1],\"sunrise\":[\"2024-12-10T06:37\",\"2024-12-11T06:38\",\"2024-12-12T06:39\",\"2024-12-13T06:40\",\"2024-12-14T06:41\",\"2024-12-15T06:41\",\"2024-12-16T06:42\"],\"sunset\":[\"2024-12-10T16:30\",\"2024-12-11T16:30\",\"2024-12-12T16:31\",\"2024-12-13T16:31\",\"2024-12-14T16:32\",\"2024-12-15T16:32\",\"2024-12-16T16:33\"],\"precipitation_probability_max\":[80,10,0,55,90,5,35]}}"
    .to_string()
}

#[test]
fn live_shaped_forecast_body_decodes() {
    // The service's answer carries position and zone members the device
    // never reads, extra unit members, and a seven-day span; all of that
    // decodes, by member name, into the same typed record.
    let f = decode_forecast(&live_forecast_body()).expect("the live layout decodes");
    assert_eq!(f.current.temperature_2m, 456);
    assert_eq!(f.current.relative_humidity_2m, 80);
    assert_eq!(f.current.weather_code, 61);
    assert_eq!(f.current_units.temperature_2m, "°F");
    assert_eq!(f.daily_units.temperature_2m_max, "°F");
    assert_eq!(f.daily.time.len(), 7);
    assert_eq!(f.daily.time[0], "2024-12-10");
    assert_eq!(f.daily.time[6], "2024-12-16");
    assert_eq!(f.daily.temperature_2m_max[0], 757);
    assert_eq!(f.daily.temperature_2m_max[4], 400);
    assert_eq!(f.daily.temperature_2m_min[6], 301);
    assert_eq!(f.daily.weather_code[6], 45);
    assert_eq!(f.daily.sunset[6], "2024-12-16T16:33");
    assert_eq!(f.daily.precipitation_probability_max[6], 35);
}

#[test]
fn member_order_does_not_matter() {
    // The same members, daily first and the positions last.
    let body = live_forecast_body();
    let daily_start = body.find("\"daily\":").unwrap();
    let head = &body[1..daily_start - 1];
    let daily = &body[daily_start..body.len() - 1];
    let reordered = format!("{{{daily},{head}}}");
    let f = decode_forecast(&reordered).expect("member order is free");
    assert_eq!(f.daily.time.len(), 7);
    assert_eq!(f.current.temperature_2m, 456);
}

#[test]
fn missing_needed_member_is_refused() {
    let body = live_forecast_body().replace("\"current\":", "\"current_conditions\":");
    assert!(decode_forecast(&body).is_err());
}

#[test]
fn live_shaped_time_body_decodes() {
    let t = decode_time_response(
        "{\"abbreviation\":\"CST\",\"client_ip\":\"203.0.113.7\",\"datetime\":\"2024-12-10T12:03:59.253687-06:00\",\"day_of_week\":2,\"day_of_year\":345,\"dst\":false,\"dst_from\":null,\"dst_offset\":0,\"dst_until\":null,\"raw_offset\":-21600,\"timezone\":\"America/Chicago\",\"unixtime\":1733853839,\"utc_datetime\":\"2024-12-10T18:03:59.253687+00:00\",\"utc_offset\":\"-06:00\",\"week_number\":50}",
    )
    .expect("the live layout decodes");
    assert_eq!(t.datetime, "2024-12-10T12:03:59.253687-06:00");
    assert_eq!(t.day_of_week, 2);
}

#[test]
fn whole_number_temperatures_decode_as_whole_tenths() {
    let body = live_forecast_body().replace("\"temperature_2m\":45.6", "\"temperature_2m\":45");
    let f = decode_forecast(&body).expect("a whole-number temperature decodes");
    assert_eq!(f.current.temperature_2m, 450);
}
