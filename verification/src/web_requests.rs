//! The dispatcher: from data-needed requests to domain events.
//!
//! The network task owns the sockets; this module owns everything it
//! decides: the exact URLs the three fixed endpoints are called with, what
//! an HTTP status and body become — a typed record or a typed error — and
//! which domain event, if any, a call's outcome feeds the orchestrator.  A
//! failed call emits no event and the previous state stays on screen.

use vstd::prelude::*;
use vstd::string::StringExecFns;
use crate::codec;
use crate::display::BlueSkyNotificationData;
use crate::events::GeneralEvents;
use crate::io::{BufWriter, FormatError, easy_format_str, spec_concat_texts, spec_str_views};
use crate::parse;
use crate::parse::ParseError;
use crate::response_models::{ForecastResponse, TimeApiResponse};
use crate::text::str_eq;

verus! {

/// The data-needed requests the scheduler can issue.
#[derive(Clone, Copy, Debug, PartialEq, Eq, Structural)]
pub enum WebRequestEvents {
    UpdateForecast,
    UpdateOfficeStatus,
    GetTime,
    CheckBlueSkyNotifications,
}

/// Why a web call produced nothing.
#[derive(Clone, Copy, Debug, PartialEq, Eq, Structural)]
pub enum WebCallError {
    /// The server answered outside the success range; carries the status.
    HttpError(u16),
    /// The connection or request itself failed.
    WebRequestError,
    /// The response body could not be read as text.
    FailedToReadResponse,
    /// The body was text but not the expected layout.
    DeserializationError,
}

/// A session request to the notification service.
#[derive(Debug, Clone, PartialEq, Eq)]
pub struct CreateSessionRequest {
    pub identifier: String,
    pub password: String,
}

/// The notification service's session answer; only the access token is
/// read by the device.
#[derive(Debug, Clone, PartialEq, Eq)]
pub struct CreateSessionResponse {
    pub access_jwt: String,
    pub refresh_jwt: String,
    pub handle: String,
    pub did: String,
    pub email: String,
    pub email_confirmed: bool,
    pub email_auth_factor: bool,
    pub active: bool,
    pub status: Option<String>,
}

/// The unread-notification count.
#[derive(Debug, Clone, Copy, PartialEq, Eq, Structural)]
pub struct GetUnreadCountResponse {
    pub count: i32,
}

/// Who a notification is from.
#[derive(Debug, Clone, PartialEq, Eq)]
pub struct Author {
    pub handle: String,
    pub display_name: String,
}

/// One notification: who, and why.
#[derive(Debug, Clone, PartialEq, Eq)]
pub struct Notification {
    pub author: Author,
    pub reason: String,
    pub reason_subject: Option<String>,
}

/// The latest-notification listing, asked for with a limit of one.
#[derive(Debug, Clone, PartialEq, Eq)]
pub struct ListNotificationsResponse {
    pub notifications: Vec<Notification>,
    pub seen_at: String,
}

/// The JSON body of a session request, identifier and password quoted in
/// the service's layout.
pub open spec fn spec_session_request_body(identifier: Seq<char>, password: Seq<char>) -> Seq<
    char,
> {
    "{\"identifier\":"@ + codec::spec_encode_string(identifier) + ",\"password\":"@
        + codec::spec_encode_string(password) + "}"@
}

/// Frames the session request's JSON body; the transport only carries the
/// bytes.  Credentials holding a quote would break the framing, so they
/// are refused rather than sent mangled.
pub fn encode_session_request(body: &CreateSessionRequest) -> (r: Option<String>)
    ensures
        r is Some <==> codec::spec_text_plain(body.identifier@) && codec::spec_text_plain(
            body.password@,
        ),
        r matches Some(s) ==> s@ == spec_session_request_body(body.identifier@, body.password@),
{
    if !text_plain(body.identifier.as_str()) || !text_plain(body.password.as_str()) {
        return None;
    }
    proof {
        reveal_strlit("\"");
    }
    let mut out = String::from_str("{\"identifier\":");
    out.append("\"");
    out.append(body.identifier.as_str());
    out.append("\"");
    out.append(",\"password\":");
    out.append("\"");
    out.append(body.password.as_str());
    out.append("\"");
    out.append("}");
    proof {
        assert("\""@ =~= seq!['"']);
        assert(out@ =~= spec_session_request_body(body.identifier@, body.password@));
    }
    Some(out)
}

/// Whether the text holds no quote character.
fn text_plain(s: &str) -> (r: bool)
    ensures
        r == codec::spec_text_plain(s@),
{
    let n = s.unicode_len();
    let mut i: usize = 0;
    while i < n
        invariant
            0 <= i <= n == s@.len(),
            forall|j: int| 0 <= j < i ==> s@[j] != '"',
        decreases n - i,
    {
        if s.get_char(i) == '"' {
            return false;
        }
        i = i + 1;
    }
    true
}

/// Whether an HTTP status is in the success range.
pub open spec fn spec_status_successful(status: u16) -> bool {
    200 <= status < 300
}

/// The forecast endpoint's URL for a position, unit system and zone.
pub open spec fn spec_forecast_url(lat: Seq<char>, long: Seq<char>, unit: Seq<char>,
    timezone: Seq<char>) -> Seq<char> {
    spec_concat_texts(
        seq![
            "https://api.open-meteo.com/v1/forecast?latitude="@,
            lat,
            "&longitude="@,
            long,
            "&current=temperature_2m,relative_humidity_2m,weather_code&daily=weather_code,temperature_2m_max,temperature_2m_min,sunrise,sunset,precipitation_probability_max&temperature_unit="@,
            unit,
            "&timezone="@,
            timezone,
        ],
    )
}

/// Writes the forecast endpoint's URL into the caller's buffer; a buffer
/// too small for the whole URL is reported and left untouched.
pub fn build_forecast_url(lat: &str, long: &str, unit: &str, timezone: &str,
    buffer: &mut BufWriter) -> (r: Result<(), FormatError>)
    requires
        old(buffer).wf(),
    ensures
        final(buffer).wf(),
        r is Ok <==> old(buffer).contents().len() + spec_forecast_url(
            lat@,
            long@,
            unit@,
            timezone@,
        ).len() <= old(buffer).capacity(),
        r is Ok ==> final(buffer).contents() == old(buffer).contents() + spec_forecast_url(
            lat@,
            long@,
            unit@,
            timezone@,
        ),
        r is Err ==> *final(buffer) == *old(buffer),
{
    let parts: Vec<&str> = vec![
        "https://api.open-meteo.com/v1/forecast?latitude=",
        lat,
        "&longitude=",
        long,
        "&current=temperature_2m,relative_humidity_2m,weather_code&daily=weather_code,temperature_2m_max,temperature_2m_min,sunrise,sunset,precipitation_probability_max&temperature_unit=",
        unit,
        "&timezone=",
        timezone,
    ];
    proof {
        assert(spec_str_views(parts@) =~= seq![
            "https://api.open-meteo.com/v1/forecast?latitude="@,
            lat@,
            "&longitude="@,
            long@,
            "&current=temperature_2m,relative_humidity_2m,weather_code&daily=weather_code,temperature_2m_max,temperature_2m_min,sunrise,sunset,precipitation_probability_max&temperature_unit="@,
            unit@,
            "&timezone="@,
            timezone@,
        ]);
    }
    easy_format_str(&parts, buffer)
}

/// The time endpoint's URL for a zone.
pub open spec fn spec_time_url(timezone: Seq<char>) -> Seq<char> {
    spec_concat_texts(seq!["https://worldtimeapi.org/api/timezone/"@, timezone])
}

/// Writes the time endpoint's URL into the caller's buffer.
pub fn build_time_url(timezone: &str, buffer: &mut BufWriter) -> (r: Result<(), FormatError>)
    requires
        old(buffer).wf(),
    ensures
        final(buffer).wf(),
        r is Ok <==> old(buffer).contents().len() + spec_time_url(timezone@).len() <= old(
            buffer,
        ).capacity(),
        r is Ok ==> final(buffer).contents() == old(buffer).contents() + spec_time_url(
            timezone@,
        ),
        r is Err ==> *final(buffer) == *old(buffer),
{
    let parts: Vec<&str> = vec!["https://worldtimeapi.org/api/timezone/", timezone];
    proof {
        assert(spec_str_views(parts@) =~= seq![
            "https://worldtimeapi.org/api/timezone/"@,
            timezone@,
        ]);
    }
    easy_format_str(&parts, buffer)
}

/// Judges a forecast call's outcome: the status must be in the success
/// range, the body must have been readable as text, and the text must
/// decode — each failure mapped to its own error, in that order.
pub fn process_forecast_response(status: u16, body: Option<&str>) -> (r: Result<
    ForecastResponse,
    WebCallError,
>)
    ensures
        !spec_status_successful(status) ==> r == Err::<ForecastResponse, WebCallError>(
            WebCallError::HttpError(status),
        ),
        spec_status_successful(status) && body is None ==> r == Err::<
            ForecastResponse,
            WebCallError,
        >(WebCallError::FailedToReadResponse),
        spec_status_successful(status) ==> (body matches Some(b) ==> {
            &&& (r is Ok <==> (codec::spec_parse_forecast(b@) matches Some(p) && 5 <= p.0 <= 7))
            &&& (r matches Ok(f) ==> codec::spec_parse_forecast(b@) matches Some(p) && f@ == p.1
                && f.well_formed())
            &&& (r is Err ==> r == Err::<ForecastResponse, WebCallError>(
                WebCallError::DeserializationError,
            ))
        }),
{
    if status < 200 || status >= 300 {
        return Err(WebCallError::HttpError(status));
    }
    match body {
        None => Err(WebCallError::FailedToReadResponse),
        Some(text) => match codec::decode_forecast(text) {
            Ok(f) => Ok(f),
            Err(_) => Err(WebCallError::DeserializationError),
        },
    }
}

/// Judges a time call's outcome the same way the forecast's is judged.
pub fn process_time_response(status: u16, body: Option<&str>) -> (r: Result<
    TimeApiResponse,
    WebCallError,
>)
    ensures
        !spec_status_successful(status) ==> r == Err::<TimeApiResponse, WebCallError>(
            WebCallError::HttpError(status),
        ),
        spec_status_successful(status) && body is None ==> r == Err::<
            TimeApiResponse,
            WebCallError,
        >(WebCallError::FailedToReadResponse),
        spec_status_successful(status) ==> (body matches Some(b) ==> {
            &&& (r is Ok <==> (codec::spec_parse_time_response(b@) matches Some(p) && p.1
                == b@.len()))
            &&& (r matches Ok(t) ==> codec::spec_parse_time_response(b@) matches Some(p) && t@
                == p.0)
            &&& (r is Err ==> r == Err::<TimeApiResponse, WebCallError>(
                WebCallError::DeserializationError,
            ))
        }),
{
    if status < 200 || status >= 300 {
        return Err(WebCallError::HttpError(status));
    }
    match body {
        None => Err(WebCallError::FailedToReadResponse),
        Some(text) => match codec::decode_time_response(text) {
            Ok(t) => Ok(t),
            Err(_) => Err(WebCallError::DeserializationError),
        },
    }
}

/// The event a forecast call's outcome feeds the orchestrator: the decoded
/// record on success, nothing at all on any failure, so a failed fetch
/// leaves the previous forecast on screen.
pub fn forecast_event(outcome: Result<ForecastResponse, WebCallError>) -> (r: Option<
    GeneralEvents,
>)
    ensures
        outcome matches Ok(f) ==> r == Some(GeneralEvents::ForecastUpdated(f)),
        outcome is Err ==> r is None,
{
    match outcome {
        Ok(forecast) => Some(GeneralEvents::ForecastUpdated(forecast)),
        Err(_) => None,
    }
}

/// The event a time call's outcome feeds the orchestrator: the service's
/// moment parsed into a clock timestamp, or nothing.  A malformed
/// timestamp text is a parse error, not a crash.
pub fn time_event(outcome: Result<TimeApiResponse, WebCallError>) -> (r: Result<
    Option<GeneralEvents>,
    ParseError,
>)
    ensures
        outcome matches Ok(t) ==> {
            &&& (r is Ok <==> parse::spec_long_datetime_shape(t.datetime@))
            &&& (r matches Ok(opt) ==> opt matches Some(e) && e matches
                GeneralEvents::TimeFromApi(dt) && {
                &&& dt.year == parse::spec_date_year(t.datetime@.subrange(0, 10))
                &&& dt.month == parse::spec_date_month(t.datetime@.subrange(0, 10))
                &&& dt.day == parse::spec_date_day(t.datetime@.subrange(0, 10))
                &&& dt.hour == parse::spec_datetime_hour(t.datetime@)
                &&& dt.minute == parse::spec_datetime_minute(t.datetime@)
                &&& dt.second == parse::spec_datetime_second(t.datetime@)
                &&& dt.day_of_week == crate::datetime::spec_day_of_week_from_index(
                    t.day_of_week,
                )
            })
        },
        outcome is Err ==> r == Ok::<Option<GeneralEvents>, ParseError>(None),
{
    match outcome {
        Ok(response) => {
            match parse::format_long_datetime(response.datetime.as_str(), Some(
                response.day_of_week,
            )) {
                Ok(rtc_time) => Ok(Some(GeneralEvents::TimeFromApi(rtc_time))),
                Err(e) => Err(e),
            }
        },
        Err(_) => Ok(None),
    }
}

/// The bearer token a successful login yields for the two follow-up
/// notification calls; a failed login yields none, and the follow-ups are
/// skipped entirely.
pub fn session_token(outcome: Result<CreateSessionResponse, WebCallError>) -> (r: Option<String>)
    ensures
        outcome matches Ok(resp) ==> r matches Some(token) && token@ == "Bearer "@
            + resp.access_jwt@,
        outcome is Err ==> r is None,
{
    match outcome {
        Ok(response) => {
            let mut token = String::from_str("Bearer ");
            token.append(response.access_jwt.as_str());
            Some(token)
        },
        Err(_) => None,
    }
}

/// The line appended under the latest notification, one per reason the
/// service documents; an unrecognised reason gets the puzzled fallback.
pub open spec fn spec_notification_blurb(reason: Seq<char>) -> Seq<char> {
    if reason == "like"@ {
        "\nhas liked your post"@
    } else if reason == "repost"@ {
        "\nhas reposted your post"@
    } else if reason == "follow"@ {
        "\nhas followed you"@
    } else if reason == "mention"@ {
        "\nhas mentioned you"@
    } else if reason == "reply"@ {
        "\nhas replied to you"@
    } else if reason == "quote"@ {
        "\nhas quoted you"@
    } else {
        " Not sure what happened here"@
    }
}

/// Picks the blurb for a notification reason.
pub fn notification_blurb(reason: &str) -> (r: &'static str)
    ensures
        r@ == spec_notification_blurb(reason@),
{
    if str_eq(reason, "like") {
        "\nhas liked your post"
    } else if str_eq(reason, "repost") {
        "\nhas reposted your post"
    } else if str_eq(reason, "follow") {
        "\nhas followed you"
    } else if str_eq(reason, "mention") {
        "\nhas mentioned you"
    } else if str_eq(reason, "reply") {
        "\nhas replied to you"
    } else if str_eq(reason, "quote") {
        "\nhas quoted you"
    } else {
        " Not sure what happened here"
    }
}

/// The event the notification flow feeds the orchestrator: only when both
/// the unread count and the listing came back, and the listing holds a
/// notification, is a summary published — the author's handle with the
/// reason's blurb under it.  Anything less emits nothing, so no partial
/// notification state is ever shown.
pub fn notification_event(unread: Result<GetUnreadCountResponse, WebCallError>,
    listing: Result<ListNotificationsResponse, WebCallError>) -> (r: Option<GeneralEvents>)
    ensures
        r is Some <==> (unread is Ok && listing is Ok
            && listing->Ok_0.notifications@.len() > 0),
        r matches Some(e) ==> e matches GeneralEvents::BlueSkyNotificationUpdate(d) && {
            &&& unread matches Ok(u) && d.unread_notifications == u.count
            &&& listing matches Ok(l) && d.last_notification@ == l.notifications@[0].author.handle@
                + spec_notification_blurb(l.notifications@[0].reason@)
        },
{
    match (unread, listing) {
        (Ok(unread_count), Ok(listing_response)) => {
            if listing_response.notifications.len() == 0 {
                return None;
            }
            let first = &listing_response.notifications[0];
            let blurb = notification_blurb(first.reason.as_str());
            let mut last_notification = first.author.handle.clone();
            last_notification.append(blurb);
            Some(
                GeneralEvents::BlueSkyNotificationUpdate(
                    BlueSkyNotificationData {
                        unread_notifications: unread_count.count,
                        last_notification,
                    },
                ),
            )
        },
        _ => None,
    }
}

} // verus!
