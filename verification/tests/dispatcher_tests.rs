use home_display::datetime::DayOfWeek;
use home_display::events::GeneralEvents;
use home_display::io::{BufWriter, FormatError};
use home_display::parse::ParseError;
use home_display::response_models::TimeApiResponse;
use home_display::scheduler::{startup_requests, trigger_step, SchedulerAction, TriggerOutcome};
use home_display::web_requests::{
    build_forecast_url, build_time_url, encode_session_request, forecast_event,
    notification_blurb, notification_event, process_forecast_response, process_time_response,
    session_token, time_event, Author, CreateSessionRequest, CreateSessionResponse,
    GetUnreadCountResponse, ListNotificationsResponse, Notification, WebCallError,
    WebRequestEvents,
};

#[test]
fn forecast_url_is_assembled_exactly() {
    let mut buffer = BufWriter::new(1028);
    build_forecast_url("35.7512", "-86.93", "fahrenheit", "America/Chicago", &mut buffer)
        .expect("the URL fits");
    assert_eq!(
        buffer.as_str(),
        "https://api.open-meteo.com/v1/forecast?latitude=35.7512&longitude=-86.93&current=temperature_2m,relative_humidity_2m,weather_code&daily=weather_code,temperature_2m_max,temperature_2m_min,sunrise,sunset,precipitation_probability_max&temperature_unit=fahrenheit&timezone=America/Chicago"
    );
}

#[test]
fn time_url_is_assembled_exactly() {
    let mut buffer = BufWriter::new(1028);
    build_time_url("America/Chicago", &mut buffer).expect("the URL fits");
    assert_eq!(
        buffer.as_str(),
        "https://worldtimeapi.org/api/timezone/America/Chicago"
    );
}

#[test]
fn url_that_does_not_fit_leaves_the_buffer_alone() {
    let mut buffer = BufWriter::new(10);
    let r = build_time_url("America/Chicago", &mut buffer);
    assert_eq!(r, Err(FormatError::BufferOverflow));
    assert_eq!(buffer.as_str(), "");
    assert_eq!(buffer.len(), 0);
}

#[test]
fn buffer_refuses_an_oversized_write_whole() {
    let mut buffer = BufWriter::new(5);
    buffer.write_str("abc").expect("three characters fit");
    assert_eq!(buffer.write_str("def"), Err(FormatError::BufferOverflow));
    assert_eq!(buffer.as_str(), "abc");
    buffer.write_str("de").expect("two more still fit");
    assert_eq!(buffer.as_str(), "abcde");
    assert_eq!(buffer.len(), 5);
}

#[test]
fn http_500_on_forecast_fetch_emits_no_event() {
    let outcome = process_forecast_response(500, Some("{\"anything\":1}"));
    assert_eq!(outcome, Err(WebCallError::HttpError(500)));
    // No event reaches the orchestrator, so the previous forecast stays.
    assert!(forecast_event(outcome).is_none());
}

#[test]
fn unreadable_body_is_its_own_error() {
    assert_eq!(
        process_forecast_response(200, None),
        Err(WebCallError::FailedToReadResponse)
    );
}

#[test]
fn undecodable_body_is_a_deserialization_error() {
    assert_eq!(
        process_forecast_response(200, Some("not json")),
        Err(WebCallError::DeserializationError)
    );
}

#[test]
fn successful_time_fetch_becomes_a_time_event() {
    let body = "{\"datetime\":\"2024-12-10T12:03:59.253687-06:00\",\"day_of_week\":2}";
    let outcome = process_time_response(200, Some(body));
    let response = outcome.clone().expect("the canonical body decodes");
    assert_eq!(response.day_of_week, 2);
    let event = time_event(outcome)
        .expect("a well-formed moment parses")
        .expect("a decoded answer emits");
    match event {
        GeneralEvents::TimeFromApi(dt) => {
            assert_eq!(dt.year, 2024);
            assert_eq!(dt.month, 12);
            assert_eq!(dt.day, 10);
            assert_eq!(dt.hour, 12);
            assert_eq!(dt.minute, 3);
            assert_eq!(dt.second, 59);
            assert_eq!(dt.day_of_week, DayOfWeek::Tuesday);
        }
        other => panic!("expected a time event, got {:?}", other),
    }
}

#[test]
fn failed_time_fetch_emits_nothing() {
    let r = time_event(Err(WebCallError::WebRequestError));
    assert_eq!(r, Ok(None));
}

#[test]
fn malformed_moment_is_a_parse_error_not_a_crash() {
    let response = TimeApiResponse {
        datetime: "yesterday-ish".to_string(),
        day_of_week: 2,
    };
    assert_eq!(time_event(Ok(response)), Err(ParseError::TooShort));
}

fn session() -> CreateSessionResponse {
    CreateSessionResponse {
        access_jwt: "SECRET-REDACTED".to_string(),
        refresh_jwt: "SECRET-REDACTED".to_string(),
        handle: "somebody.example".to_string(),
        did: "did:plc:0".to_string(),
        email: "somebody@example.com".to_string(),
        email_confirmed: true,
        email_auth_factor: false,
        active: true,
        status: None,
    }
}

#[test]
fn login_threads_a_bearer_token() {
    let token = session_token(Ok(session())).expect("a session yields a token");
    assert_eq!(token, "Bearer SECRET-REDACTED");
    assert!(session_token(Err(WebCallError::HttpError(401))).is_none());
}

#[test]
fn notification_blurbs_cover_the_documented_reasons() {
    assert_eq!(notification_blurb("like"), "\nhas liked your post");
    assert_eq!(notification_blurb("repost"), "\nhas reposted your post");
    assert_eq!(notification_blurb("follow"), "\nhas followed you");
    assert_eq!(notification_blurb("mention"), "\nhas mentioned you");
    assert_eq!(notification_blurb("reply"), "\nhas replied to you");
    assert_eq!(notification_blurb("quote"), "\nhas quoted you");
    assert_eq!(notification_blurb("???"), " Not sure what happened here");
}

fn listing() -> ListNotificationsResponse {
    ListNotificationsResponse {
        notifications: vec![Notification {
            author: Author {
                handle: "somebody.example".to_string(),
                display_name: "Somebody".to_string(),
            },
            reason: "like".to_string(),
            reason_subject: None,
        }],
        seen_at: "2024-12-10T11:45:00Z".to_string(),
    }
}

#[test]
fn complete_notification_flow_emits_a_summary() {
    let event = notification_event(Ok(GetUnreadCountResponse { count: 3 }), Ok(listing()))
        .expect("both calls answered");
    match event {
        GeneralEvents::BlueSkyNotificationUpdate(d) => {
            assert_eq!(d.unread_notifications, 3);
            assert_eq!(d.last_notification, "somebody.example\nhas liked your post");
        }
        other => panic!("expected a notification event, got {:?}", other),
    }
}

#[test]
fn partial_notification_state_is_never_published() {
    assert!(notification_event(Err(WebCallError::HttpError(500)), Ok(listing())).is_none());
    assert!(notification_event(
        Ok(GetUnreadCountResponse { count: 3 }),
        Err(WebCallError::DeserializationError)
    )
    .is_none());
    let empty = ListNotificationsResponse {
        notifications: Vec::new(),
        seen_at: "2024-12-10T11:45:00Z".to_string(),
    };
    assert!(notification_event(Ok(GetUnreadCountResponse { count: 3 }), Ok(empty)).is_none());
}

#[test]
fn startup_asks_for_time_then_forecast() {
    assert_eq!(
        startup_requests(),
        vec![WebRequestEvents::GetTime, WebRequestEvents::UpdateForecast]
    );
}

#[test]
fn trigger_loop_refreshes_until_stopped() {
    assert_eq!(
        trigger_step(TriggerOutcome::TimerElapsed),
        SchedulerAction::SendRequest(WebRequestEvents::UpdateForecast)
    );
    assert_eq!(
        trigger_step(TriggerOutcome::StopRequested),
        SchedulerAction::Stop
    );
}

#[test]
fn session_request_body_is_framed_exactly() {
    let body = encode_session_request(&CreateSessionRequest {
        identifier: "somebody.example".to_string(),
        password: "SECRET-REDACTED".to_string(),
    })
    .expect("plain credentials frame");
    assert_eq!(
        body,
        "{\"identifier\":\"somebody.example\",\"password\":\"SECRET-REDACTED\"}"
    );
}

#[test]
fn credentials_holding_a_quote_are_refused() {
    let r = encode_session_request(&CreateSessionRequest {
        identifier: "some\"body".to_string(),
        password: "SECRET-REDACTED".to_string(),
    });
    assert!(r.is_none());
}
