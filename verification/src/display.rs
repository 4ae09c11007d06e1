//! What the panel shows, as data: draw commands instead of pixels.
//!
//! The renderer owns the frame buffer and the panel bus; this module owns
//! every decision about what appears where.  Each draw function appends
//! plain commands — text at a point, a named bitmap at a point, a
//! rectangle — to a command list the renderer then executes, so the exact
//! strings and placements the panel shows are stated and proved here.

use vstd::prelude::*;
use vstd::string::StringExecFns;
use crate::datetime::{DateTime, spec_day_of_week_index};
use crate::events::{State, StateChanges};
use crate::response_models::{Current, CurrentUnits, Daily};
use crate::text;
use crate::parse::ParseError;
use crate::text::{
    floor_tenths, format_i64, format_tenths, format_two_digits, format_u64,
    round_hundredths_i64, round_tenths_i64, str_eq,
};
use crate::weather_icons::{get_weather_icon, get_night_weather_icon, spec_icon_name,
    spec_weather_icon, WeatherIcon};

verus! {

/// The indoor sensor's reading: CO2 in parts per million, temperature in
/// tenths of a degree Celsius, relative humidity in tenths of a percent.
#[derive(Clone, Copy, Debug, PartialEq, Eq, Structural)]
pub struct InsideSensorData {
    pub co2: u16,
    pub temperature: i32,
    pub humidity: i32,
}

/// A social-notification summary: how many are unread, and the text shown
/// for the latest one.
#[derive(Debug, PartialEq, Eq)]
pub struct BlueSkyNotificationData {
    pub unread_notifications: i32,
    pub last_notification: String,
}

/// Mathematical content of a notification summary.
pub ghost struct BlueSkyNotificationDataView {
    pub unread_notifications: i32,
    pub last_notification: Seq<char>,
}

impl View for BlueSkyNotificationData {
    type V = BlueSkyNotificationDataView;

    open spec fn view(&self) -> BlueSkyNotificationDataView {
        BlueSkyNotificationDataView {
            unread_notifications: self.unread_notifications,
            last_notification: self.last_notification@,
        }
    }
}

impl Clone for BlueSkyNotificationData {
    fn clone(&self) -> (r: Self)
        ensures
            r@ == self@,
    {
        BlueSkyNotificationData {
            unread_notifications: self.unread_notifications,
            last_notification: self.last_notification.clone(),
        }
    }
}

/// One instruction to the renderer.
#[derive(Debug, Clone, PartialEq, Eq)]
pub enum DrawCommand {
    /// Draw `text` with its top-left baseline at (`x`, `y`).
    Text { x: i32, y: i32, text: String },
    /// Blit the bitmap asset called `name` with its top-left corner at
    /// (`x`, `y`).
    Bitmap { x: i32, y: i32, name: String },
    /// Draw a one-pixel-stroke rectangle filled white; `black_stroke`
    /// picks the stroke color, white strokes being used to blank a region.
    Rect { x: i32, y: i32, width: u32, height: u32, black_stroke: bool },
}

/// A point on the panel, top-left origin.
#[derive(Clone, Copy, Debug, PartialEq, Eq, Structural)]
pub struct Point {
    pub x: i32,
    pub y: i32,
}

/// Mathematical content of one draw command.
pub ghost enum DrawCommandView {
    Text { x: int, y: int, text: Seq<char> },
    Bitmap { x: int, y: int, name: Seq<char> },
    Rect { x: int, y: int, width: int, height: int, black_stroke: bool },
}

impl View for DrawCommand {
    type V = DrawCommandView;

    open spec fn view(&self) -> DrawCommandView {
        match self {
            DrawCommand::Text { x, y, text } => DrawCommandView::Text {
                x: *x as int,
                y: *y as int,
                text: text@,
            },
            DrawCommand::Bitmap { x, y, name } => DrawCommandView::Bitmap {
                x: *x as int,
                y: *y as int,
                name: name@,
            },
            DrawCommand::Rect { x, y, width, height, black_stroke } => DrawCommandView::Rect {
                x: *x as int,
                y: *y as int,
                width: *width as int,
                height: *height as int,
                black_stroke: *black_stroke,
            },
        }
    }
}

/// The commands a list holds, as mathematical values.
pub open spec fn spec_cmds(v: Seq<DrawCommand>) -> Seq<DrawCommandView> {
    v.map_values(|c: DrawCommand| c@)
}

proof fn lemma_cmds_push(v: Seq<DrawCommand>, c: DrawCommand)
    ensures
        spec_cmds(v.push(c)) == spec_cmds(v).push(c@),
{
    assert(spec_cmds(v.push(c)) =~= spec_cmds(v).push(c@));
}

/// Queues `text` for drawing with its top-left corner at (`x`, `y`).
pub fn draw_text(display: &mut Vec<DrawCommand>, text: String, x: i32, y: i32)
    ensures
        spec_cmds(final(display)@) == spec_cmds(old(display)@).push(
            DrawCommandView::Text { x: x as int, y: y as int, text: text@ },
        ),
{
    let ghost before = display@;
    let cmd = DrawCommand::Text { x, y, text };
    proof {
        lemma_cmds_push(before, cmd);
    }
    display.push(cmd);
}

/// Queues the bitmap asset called `name` for blitting at (`x`, `y`).
pub fn draw_bmp(display: &mut Vec<DrawCommand>, name: &str, x: i32, y: i32)
    ensures
        spec_cmds(final(display)@) == spec_cmds(old(display)@).push(
            DrawCommandView::Bitmap { x: x as int, y: y as int, name: name@ },
        ),
{
    let ghost before = display@;
    let cmd = DrawCommand::Bitmap { x, y, name: String::from_str(name) };
    proof {
        lemma_cmds_push(before, cmd);
    }
    display.push(cmd);
}

/// Queues a one-pixel-stroke, white-filled rectangle.
pub fn draw_rect(display: &mut Vec<DrawCommand>, x: i32, y: i32, width: u32, height: u32,
    black_stroke: bool)
    ensures
        spec_cmds(final(display)@) == spec_cmds(old(display)@).push(
            DrawCommandView::Rect { x: x as int, y: y as int, width: width as int, height: height as int, black_stroke },
        ),
{
    let ghost before = display@;
    let cmd = DrawCommand::Rect { x, y, width, height, black_stroke };
    proof {
        lemma_cmds_push(before, cmd);
    }
    display.push(cmd);
}

/// The clock region's text: `HH:MM AM M/D/YYYY` in twelve-hour form, the
/// hour and minute zero-padded to two digits.
pub open spec fn spec_time_text(dt: DateTime) -> Seq<char> {
    let twelve_hour = if dt.hour >= 12 {
        if dt.hour == 12 {
            12
        } else {
            (dt.hour - 12) as u8
        }
    } else if dt.hour == 0 {
        12
    } else {
        dt.hour
    };
    let am_pm = if dt.hour >= 12 {
        "PM"@
    } else {
        "AM"@
    };
    text::spec_two_digit_text(twelve_hour as nat) + ":"@ + text::spec_two_digit_text(
        dt.minute as nat,
    ) + " "@ + am_pm + " "@ + text::spec_digits_of(dt.month as nat) + "/"@ + text::spec_digits_of(
        dt.day as nat,
    ) + "/"@ + text::spec_digits_of(dt.year as nat)
}

/// The commands a clock redraw issues: blank the clock region, then write
/// the current time over it.
pub open spec fn spec_time_cmds(dt: DateTime) -> Seq<DrawCommandView> {
    seq![
        DrawCommandView::Rect { x: 0, y: 0, width: 155, height: 25, black_stroke: false },
        DrawCommandView::Text { x: 5, y: 10, text: spec_time_text(dt) },
    ]
}

/// Redraws the clock region: whites out the old digits — a narrower date
/// would otherwise leave one hanging — and writes the time in twelve-hour
/// form.
pub fn draw_time(date_time: DateTime, display: &mut Vec<DrawCommand>)
    ensures
        spec_cmds(final(display)@) == spec_cmds(old(display)@) + spec_time_cmds(date_time),
{
    draw_rect(display, 0, 0, 155, 25, false);

    let mut am = true;
    let twelve_hour: u8 = if date_time.hour >= 12 {
        am = false;
        if date_time.hour == 12 {
            12
        } else {
            date_time.hour - 12
        }
    } else if date_time.hour == 0 {
        12
    } else {
        date_time.hour
    };
    let am_pm = if am {
        "AM"
    } else {
        "PM"
    };

    let mut formatted_time = format_two_digits(twelve_hour);
    formatted_time.append(":");
    let minute_digits = format_two_digits(date_time.minute);
    formatted_time.append(minute_digits.as_str());
    formatted_time.append(" ");
    formatted_time.append(am_pm);
    formatted_time.append(" ");
    let month_digits = format_u64(date_time.month as u64);
    formatted_time.append(month_digits.as_str());
    formatted_time.append("/");
    let day_digits = format_u64(date_time.day as u64);
    formatted_time.append(day_digits.as_str());
    formatted_time.append("/");
    let year_digits = format_u64(date_time.year as u64);
    formatted_time.append(year_digits.as_str());
    proof {
        assert(formatted_time@ =~= spec_time_text(date_time));
    }

    draw_text(display, formatted_time, 5, 10);
    proof {
        assert(spec_cmds(final(display)@) =~= spec_cmds(old(display)@) + spec_time_cmds(
            date_time,
        ));
    }
}

/// The indoor temperature text: converted to whole degrees Fahrenheit when
/// the configured unit says so, rounded to the nearest whole degree either
/// way, with the unit suffix.
pub open spec fn spec_scd_temp_text(temperature: int, fahrenheit: bool) -> Seq<char> {
    if fahrenheit {
        text::spec_int_text(text::spec_round_hundredths(temperature * 18 + 3200)) + "°F"@
    } else {
        text::spec_int_text(text::spec_round_tenths(temperature)) + "°C"@
    }
}

/// The commands an indoor-sensor redraw issues: the house icon and the
/// temperature, humidity and CO2 readings beside it.
pub open spec fn spec_scd_cmds(p: Point, d: InsideSensorData, fahrenheit: bool) -> Seq<
    DrawCommandView,
> {
    seq![
        DrawCommandView::Bitmap { x: p.x as int, y: p.y as int, name: "house_fill"@ },
        DrawCommandView::Text {
            x: p.x + 33int,
            y: p.y as int,
            text: spec_scd_temp_text(d.temperature as int, fahrenheit),
        },
        DrawCommandView::Text {
            x: p.x + 33int,
            y: p.y + 15int,
            text: text::spec_int_text(text::spec_round_tenths(d.humidity as int)) + "%"@,
        },
        DrawCommandView::Text {
            x: p.x + 33int,
            y: p.y + 30int,
            text: text::spec_digits_of(d.co2 as nat) + "ppm"@,
        },
    ]
}

/// Redraws the indoor-sensor region: house icon, then temperature in the
/// configured unit, relative humidity, and CO2 concentration, each rounded
/// to whole units.
pub fn draw_scd_data(starting_point: Point, sensor_data: InsideSensorData, fahrenheit: bool,
    display: &mut Vec<DrawCommand>)
    requires
        starting_point.x + 33 <= i32::MAX,
        starting_point.y + 30 <= i32::MAX,
    ensures
        spec_cmds(final(display)@) == spec_cmds(old(display)@) + spec_scd_cmds(
            starting_point,
            sensor_data,
            fahrenheit,
        ),
{
    let mut temp: String;
    if fahrenheit {
        let hundredths: i64 = sensor_data.temperature as i64 * 18 + 3200;
        let rounded = round_hundredths_i64(hundredths);
        temp = format_i64(rounded);
        temp.append("°F");
    } else {
        let rounded = round_tenths_i64(sensor_data.temperature as i64);
        temp = format_i64(rounded);
        temp.append("°C");
    }
    proof {
        assert(temp@ =~= spec_scd_temp_text(sensor_data.temperature as int, fahrenheit));
    }

    let mut humidity = format_i64(round_tenths_i64(sensor_data.humidity as i64));
    humidity.append("%");

    let mut co2 = format_u64(sensor_data.co2 as u64);
    co2.append("ppm");

    draw_bmp(display, "house_fill", starting_point.x, starting_point.y);
    draw_text(display, temp, starting_point.x + 33, starting_point.y);
    draw_text(display, humidity, starting_point.x + 33, starting_point.y + 15);
    draw_text(display, co2, starting_point.x + 33, starting_point.y + 30);
    proof {
        assert(spec_cmds(final(display)@) =~= spec_cmds(old(display)@) + spec_scd_cmds(
            starting_point,
            sensor_data,
            fahrenheit,
        ));
    }
}

/// The icon shown for the current conditions: picked from the weather code
/// by day, always the clear night icon after sunset.
pub open spec fn spec_current_icon_name(code: u8, daytime: bool) -> Seq<char> {
    if daytime {
        spec_icon_name(spec_weather_icon(code))
    } else {
        spec_icon_name(WeatherIcon::NtClear)
    }
}

/// The commands a current-conditions redraw issues: the condition icon,
/// the temperature with its unit, and the humidity with its unit.
pub open spec fn spec_current_weather_cmds(p: Point, c: crate::response_models::CurrentView,
    u: crate::response_models::CurrentUnitsView, daytime: bool) -> Seq<DrawCommandView> {
    seq![
        DrawCommandView::Bitmap {
            x: p.x as int,
            y: p.y - 15int,
            name: spec_current_icon_name(c.weather_code, daytime),
        },
        DrawCommandView::Text {
            x: p.x + 58int,
            y: p.y as int,
            text: text::spec_tenths_text(c.temperature_2m) + u.temperature_2m,
        },
        DrawCommandView::Text {
            x: p.x + 58int,
            y: p.y + 15int,
            text: text::spec_int_text(c.relative_humidity_2m) + u.relative_humidity_2m,
        },
    ]
}

/// Redraws the current outside conditions: the icon for the weather code
/// (its night variant after sunset), then temperature and humidity, each
/// followed by the unit text the service sent.
pub fn draw_current_outside_weather(starting_point: Point, current: &Current,
    units: &CurrentUnits, daytime: bool, display: &mut Vec<DrawCommand>)
    requires
        starting_point.x + 58 <= i32::MAX,
        starting_point.y + 15 <= i32::MAX,
        starting_point.y - 15 >= i32::MIN,
        current.temperature_2m > i32::MIN,
        current.relative_humidity_2m > i64::MIN,
    ensures
        spec_cmds(final(display)@) == spec_cmds(old(display)@) + spec_current_weather_cmds(
            starting_point,
            current@,
            units@,
            daytime,
        ),
{
    let current_image = if daytime {
        get_weather_icon(current.weather_code).get_icon()
    } else {
        get_night_weather_icon(current.weather_code).get_icon()
    };

    draw_bmp(display, current_image, starting_point.x, starting_point.y - 15);

    let mut current_temp = format_tenths(current.temperature_2m);
    current_temp.append(units.temperature_2m.as_str());

    draw_text(display, current_temp, starting_point.x + 58, starting_point.y);

    let mut current_humidity = format_i64(current.relative_humidity_2m);
    current_humidity.append(units.relative_humidity_2m.as_str());

    draw_text(display, current_humidity, starting_point.x + 58, starting_point.y + 15);
    proof {
        assert(spec_cmds(final(display)@) =~= spec_cmds(old(display)@)
            + spec_current_weather_cmds(starting_point, current@, units@, daytime));
    }
}

/// The `M/D` text naming a forecast day, no zero padding, as the box
/// header shows when no current time is known.
pub open spec fn spec_month_day_text(date: Seq<char>) -> Seq<char> {
    text::spec_digits_of(crate::parse::spec_date_month(date)) + "/"@ + text::spec_digits_of(
        crate::parse::spec_date_day(date),
    )
}

/// The three-letter day name for an index, Sunday first.
pub open spec fn spec_day_name(idx: int) -> Seq<char> {
    if idx == 0 {
        "Sun"@
    } else if idx == 1 {
        "Mon"@
    } else if idx == 2 {
        "Tue"@
    } else if idx == 3 {
        "Wed"@
    } else if idx == 4 {
        "Thu"@
    } else if idx == 5 {
        "Fri"@
    } else {
        "Sat"@
    }
}

/// The header text of a forecast box: the day of week counted forward from
/// the current day when the current time is known, the `M/D` date
/// otherwise.  An index that still lands past Saturday after one wrap
/// falls back to the date, as the device has always had it.
pub open spec fn spec_box_day_text(date: Seq<char>, cur: Option<DateTime>, idx: u8) -> Seq<
    char,
> {
    match cur {
        None => spec_month_day_text(date),
        Some(ct) => {
            let raw = spec_day_of_week_index(ct.day_of_week) as int + idx as int;
            let wrapped = if raw > 6 {
                raw - 7
            } else {
                raw
            };
            if 0 <= wrapped <= 6 {
                spec_day_name(wrapped)
            } else {
                spec_month_day_text(date)
            }
        },
    }
}

/// Whether the `M/D` header marks one of the household's birthdays,
/// written as the header writes them, without zero padding.
pub open spec fn spec_is_birthday(month_day: Seq<char>) -> bool {
    month_day == "12/8"@ || month_day == "12/24"@ || month_day == "4/16"@ || month_day
        == "6/10"@
}

/// The time-of-day part of a short timestamp, `HH:MM`.
pub open spec fn spec_time_part(s: Seq<char>) -> Seq<char> {
    s.subrange(11, s.len() as int)
}

/// The commands one daily forecast box issues: its two outline
/// rectangles, the day header, the birthday-cake mark when the date earns
/// one, the day's weather icon, the floored high/low line, and the sunrise
/// and sunset rows.
pub open spec fn spec_forecast_box_cmds(p: Point, w: u32, date: Seq<char>, units: Seq<char>,
    max_temp: int, min_temp: int, code: u8, sunrise: Seq<char>, sunset: Seq<char>,
    cur: Option<DateTime>, idx: u8) -> Seq<DrawCommandView> {
    let head = seq![
        DrawCommandView::Rect {
            x: p.x as int,
            y: p.y as int,
            width: w as int,
            height: 25,
            black_stroke: true,
        },
        DrawCommandView::Rect {
            x: p.x as int,
            y: p.y + 25int,
            width: w as int,
            height: 125,
            black_stroke: true,
        },
        DrawCommandView::Text { x: p.x + 16int, y: p.y + 6int, text: spec_box_day_text(date, cur, idx) },
    ];
    let cake = if spec_is_birthday(spec_month_day_text(date)) {
        seq![
            DrawCommandView::Bitmap { x: p.x + 54int, y: p.y + 1int, name: "birthday_cake_24"@ },
        ]
    } else {
        Seq::<DrawCommandView>::empty()
    };
    let tail = seq![
        DrawCommandView::Bitmap {
            x: p.x + 10int,
            y: p.y + 45int,
            name: spec_icon_name(spec_weather_icon(code)),
        },
        DrawCommandView::Text {
            x: p.x + 5int,
            y: p.y + 35int,
            text: text::spec_int_text(text::spec_floor_tenths(max_temp)) + units + "/"@
                + text::spec_int_text(text::spec_floor_tenths(min_temp)) + units,
        },
        DrawCommandView::Bitmap { x: p.x + 1int, y: p.y + 100int, name: "small_sun"@ },
        DrawCommandView::Text { x: p.x + 30int, y: p.y + 105int, text: spec_time_part(sunrise) },
        DrawCommandView::Bitmap { x: p.x + 1int, y: p.y + 125int, name: "small_moon"@ },
        DrawCommandView::Text { x: p.x + 30int, y: p.y + 130int, text: spec_time_part(sunset) },
    ];
    head + cake + tail
}

/// Draws one box of the five-day forecast strip: outline, day header,
/// birthday mark, weather icon, floored high/low temperatures, and the
/// sunrise and sunset times.  The date must be a `YYYY-MM-DD` layout and
/// the sun times `YYYY-MM-DDTHH:MM` layouts; a malformed one is reported
/// instead of drawn, and nothing is queued.
pub fn draw_weather_forecast_box(starting_point: Point, forecast_box_width: u32,
    daily_date: &str, units: &str, daily_max_temp: i32, daily_min_temp: i32,
    daily_weather_code: u8, sun_rise: &str, sun_set: &str,
    possible_current_datetime: Option<DateTime>, current_index: u8,
    display: &mut Vec<DrawCommand>) -> (r: Result<(), ParseError>)
    requires
        starting_point.x + 54 <= i32::MAX,
        starting_point.y + 130 <= i32::MAX,
        daily_max_temp > i32::MIN,
        daily_min_temp > i32::MIN,
    ensures
        r is Ok <==> {
            &&& crate::parse::spec_date_shape(daily_date@)
            &&& crate::parse::spec_short_datetime_shape(sun_rise@)
            &&& crate::parse::spec_short_datetime_shape(sun_set@)
        },
        r is Ok ==> spec_cmds(final(display)@) == spec_cmds(old(display)@)
            + spec_forecast_box_cmds(
            starting_point,
            forecast_box_width,
            daily_date@,
            units@,
            daily_max_temp as int,
            daily_min_temp as int,
            daily_weather_code,
            sun_rise@,
            sun_set@,
            possible_current_datetime,
            current_index,
        ),
        r is Err ==> final(display)@ == old(display)@,
        !crate::parse::spec_date_shape(daily_date@) ==> r == Err::<(), ParseError>(
            if daily_date@.len() < 10 {
                ParseError::TooShort
            } else {
                ParseError::BadSyntax
            },
        ),
{
    let formatted_date = match crate::parse::format_date(daily_date) {
        Ok(fd) => fd,
        Err(e) => { return Err(e) },
    };
    if let Err(e) = crate::parse::format_short_datetime(sun_rise) {
        return Err(e);
    }
    if let Err(e) = crate::parse::format_short_datetime(sun_set) {
        return Err(e);
    }

    let sun_rise_time = time_part_of(sun_rise);
    let sun_set_time = time_part_of(sun_set);

    draw_rect(display, starting_point.x, starting_point.y, forecast_box_width, 25, true);
    draw_rect(display, starting_point.x, starting_point.y + 25, forecast_box_width, 125, true);

    let mut month_day = format_u64(formatted_date.month as u64);
    month_day.append("/");
    let day_digits = format_u64(formatted_date.day as u64);
    month_day.append(day_digits.as_str());
    proof {
        assert(month_day@ =~= spec_month_day_text(daily_date@));
    }

    match possible_current_datetime {
        Some(current_datetime) => {
            let mut day_of_week_index: u32 = crate::datetime::day_of_week_index(
                current_datetime.day_of_week,
            ) as u32 + current_index as u32;
            if day_of_week_index > 6 {
                day_of_week_index = day_of_week_index - 7;
            }
            let short_hand_day_of_week: String = match day_of_week_index {
                0 => String::from_str("Sun"),
                1 => String::from_str("Mon"),
                2 => String::from_str("Tue"),
                3 => String::from_str("Wed"),
                4 => String::from_str("Thu"),
                5 => String::from_str("Fri"),
                6 => String::from_str("Sat"),
                _ => month_day.clone(),
            };
            proof {
                assert(short_hand_day_of_week@ == spec_box_day_text(
                    daily_date@,
                    possible_current_datetime,
                    current_index,
                ));
            }
            draw_text(display, short_hand_day_of_week, starting_point.x + 16,
                starting_point.y + 6);
        },
        None => {
            draw_text(display, month_day.clone(), starting_point.x + 16, starting_point.y + 6);
        },
    }

    let birthday = str_eq(month_day.as_str(), "12/8") || str_eq(month_day.as_str(), "12/24")
        || str_eq(month_day.as_str(), "4/16") || str_eq(month_day.as_str(), "6/10");
    if birthday {
        draw_bmp(display, "birthday_cake_24", starting_point.x + 54, starting_point.y + 1);
    }

    draw_bmp(
        display,
        get_weather_icon(daily_weather_code).get_icon(),
        starting_point.x + 10,
        starting_point.y + 45,
    );

    let mut max_min_text = format_i64(floor_tenths(daily_max_temp) as i64);
    max_min_text.append(units);
    max_min_text.append("/");
    let min_digits = format_i64(floor_tenths(daily_min_temp) as i64);
    max_min_text.append(min_digits.as_str());
    max_min_text.append(units);
    proof {
        assert(max_min_text@ =~= text::spec_int_text(
            text::spec_floor_tenths(daily_max_temp as int),
        ) + units@ + "/"@ + text::spec_int_text(text::spec_floor_tenths(daily_min_temp as int))
            + units@);
    }

    draw_text(display, max_min_text, starting_point.x + 5, starting_point.y + 35);

    draw_bmp(display, "small_sun", starting_point.x + 1, starting_point.y + 100);
    draw_text(display, sun_rise_time, starting_point.x + 30, starting_point.y + 105);
    draw_bmp(display, "small_moon", starting_point.x + 1, starting_point.y + 125);
    draw_text(display, sun_set_time, starting_point.x + 30, starting_point.y + 130);

    proof {
        assert(spec_cmds(final(display)@) =~= spec_cmds(old(display)@) + spec_forecast_box_cmds(
            starting_point,
            forecast_box_width,
            daily_date@,
            units@,
            daily_max_temp as int,
            daily_min_temp as int,
            daily_weather_code,
            sun_rise@,
            sun_set@,
            possible_current_datetime,
            current_index,
        ));
    }
    Ok(())
}

/// The commands a notification redraw issues: the service logo, the
/// unread count, and the latest notification's text.
pub open spec fn spec_notification_cmds(p: Point, n: BlueSkyNotificationDataView) -> Seq<
    DrawCommandView,
> {
    seq![
        DrawCommandView::Bitmap { x: p.x + 10int, y: p.y as int, name: "bluesky_logo"@ },
        DrawCommandView::Text {
            x: p.x + 40int,
            y: p.y as int,
            text: text::spec_int_text(n.unread_notifications as int),
        },
        DrawCommandView::Text { x: p.x + 40int, y: p.y + 15int, text: n.last_notification },
    ]
}

/// Redraws the notification region: the service logo, then the unread
/// count and the latest notification's text beside it.
pub fn draw_blue_sky_notification(starting_point: Point, notification: &BlueSkyNotificationData,
    display: &mut Vec<DrawCommand>)
    requires
        starting_point.x + 40 <= i32::MAX,
        starting_point.y + 15 <= i32::MAX,
    ensures
        spec_cmds(final(display)@) == spec_cmds(old(display)@) + spec_notification_cmds(
            starting_point,
            notification@,
        ),
{
    draw_bmp(display, "bluesky_logo", starting_point.x + 10, starting_point.y);

    let unread_notifications = format_i64(notification.unread_notifications as i64);
    draw_text(display, unread_notifications, starting_point.x + 40, starting_point.y);

    draw_text(
        display,
        notification.last_notification.clone(),
        starting_point.x + 40,
        starting_point.y + 15,
    );
    proof {
        assert(spec_cmds(final(display)@) =~= spec_cmds(old(display)@) + spec_notification_cmds(
            starting_point,
            notification@,
        ));
    }
}

/// Whether the five displayed days' date, sunrise and sunset strings all
/// follow their layouts.
pub open spec fn spec_forecast_strings_ok(d: crate::response_models::DailyView) -> bool {
    forall|i: int|
        0 <= i < 5 ==> {
            &&& crate::parse::spec_date_shape(#[trigger] d.time[i])
            &&& crate::parse::spec_short_datetime_shape(d.sunrise[i])
            &&& crate::parse::spec_short_datetime_shape(d.sunset[i])
        }
}

/// Checks the five displayed days' strings against their layouts before
/// anything is drawn from them.
fn forecast_strings_valid(daily: &Daily) -> (r: bool)
    requires
        daily.well_formed(),
    ensures
        r == spec_forecast_strings_ok(daily@),
{
    let mut i: usize = 0;
    while i < 5
        invariant
            0 <= i <= 5,
            daily.well_formed(),
            forall|j: int|
                0 <= j < i ==> {
                    &&& crate::parse::spec_date_shape(#[trigger] daily@.time[j])
                    &&& crate::parse::spec_short_datetime_shape(daily@.sunrise[j])
                    &&& crate::parse::spec_short_datetime_shape(daily@.sunset[j])
                },
        decreases 5 - i,
    {
        let ghost d = daily@;
        proof {
            assert(d.time[i as int] == daily.time@[i as int]@);
            assert(d.sunrise[i as int] == daily.sunrise@[i as int]@);
            assert(d.sunset[i as int] == daily.sunset@[i as int]@);
        }
        if crate::parse::format_date(daily.time[i].as_str()).is_err() {
            proof {
                assert(!spec_forecast_strings_ok(d)) by {
                    if spec_forecast_strings_ok(d) {
                        assert(crate::parse::spec_date_shape(d.time[i as int]));
                    }
                }
            }
            return false;
        }
        if crate::parse::format_short_datetime(daily.sunrise[i].as_str()).is_err() {
            proof {
                assert(!spec_forecast_strings_ok(d)) by {
                    if spec_forecast_strings_ok(d) {
                        assert(crate::parse::spec_date_shape(d.time[i as int]));
                    }
                }
            }
            return false;
        }
        if crate::parse::format_short_datetime(daily.sunset[i].as_str()).is_err() {
            proof {
                assert(!spec_forecast_strings_ok(d)) by {
                    if spec_forecast_strings_ok(d) {
                        assert(crate::parse::spec_date_shape(d.time[i as int]));
                    }
                }
            }
            return false;
        }
        proof {
            assert(daily@.time[i as int] == daily.time@[i as int]@);
            assert(daily@.sunrise[i as int] == daily.sunrise@[i as int]@);
            assert(daily@.sunset[i as int] == daily.sunset@[i as int]@);
        }
        i = i + 1;
    }
    true
}

/// Whether the current moment is before today's sunset; with no current
/// time known, daytime is assumed.
pub open spec fn spec_daytime(cur: Option<DateTime>, sunset: Seq<char>) -> bool {
    match cur {
        None => true,
        Some(ct) => {
            let sh = crate::parse::spec_datetime_hour(sunset);
            let sm = crate::parse::spec_datetime_minute(sunset);
            !(ct.hour as nat > sh || (sh == ct.hour as nat && ct.minute as nat > sm))
        },
    }
}

/// The commands of the first `k` daily forecast boxes, laid out left to
/// right in 80-pixel columns along the strip's row.
pub open spec fn spec_forecast_boxes(f: crate::response_models::ForecastResponseView,
    cur: Option<DateTime>, k: int) -> Seq<DrawCommandView>
    decreases k,
{
    if k <= 0 {
        Seq::empty()
    } else {
        spec_forecast_boxes(f, cur, k - 1) + spec_forecast_box_cmds(
            Point { x: (80 * (k - 1)) as i32, y: 145 },
            80,
            f.daily.time[k - 1],
            f.daily_units.temperature_2m_max,
            f.daily.temperature_2m_max[k - 1],
            f.daily.temperature_2m_min[k - 1],
            f.daily.weather_code[k - 1],
            f.daily.sunrise[k - 1],
            f.daily.sunset[k - 1],
            cur,
            (k - 1) as u8,
        )
    }
}

/// Everything a forecast redraw issues: the five-day strip, then the
/// current conditions, whose icon follows today's sunset.
pub open spec fn spec_forecast_cmds(f: crate::response_models::ForecastResponseView,
    cur: Option<DateTime>) -> Seq<DrawCommandView> {
    spec_forecast_boxes(f, cur, 5) + spec_current_weather_cmds(
        Point { x: 85, y: 50 },
        f.current,
        f.current_units,
        spec_daytime(cur, f.daily.sunset[0]),
    )
}

/// Decides what one published snapshot means for the panel, queues the
/// commands of exactly the affected region, and says whether the frame
/// must be pushed to the panel afterwards.
///
/// A forecast whose display strings break their layouts is reported and
/// nothing is queued; every other change tag queues its region's commands
/// and has the frame pushed: the forecast strip with the current
/// conditions, the clock region, the indoor readings, or the notification
/// corner.  A time-set snapshot is the clock task's business and queues
/// nothing.
pub fn handle_state(state: &State, fahrenheit: bool, display: &mut Vec<DrawCommand>) -> (r:
    Result<bool, ParseError>)
    requires
        state.forecast matches Some(f) ==> f.well_formed(),
    ensures
        state.state_change == StateChanges::NoChange || state.state_change
            == StateChanges::TimeSet || state.state_change == StateChanges::OfficeStatusUpdated
            ==> r == Ok::<bool, ParseError>(false) && final(display)@ == old(display)@,
        state.state_change == StateChanges::NewTimeDigit ==> r == Ok::<bool, ParseError>(true)
            && spec_cmds(final(display)@) == spec_cmds(old(display)@) + (
        match state.approximately_current_time {
            Some(dt) => spec_time_cmds(dt),
            None => Seq::<DrawCommandView>::empty(),
        }),
        state.state_change == StateChanges::SensorUpdate ==> (
        match state.sensor_data {
            Some(d) => r == Ok::<bool, ParseError>(true) && spec_cmds(final(display)@)
                == spec_cmds(old(display)@) + spec_scd_cmds(Point { x: 5, y: 50 }, d, fahrenheit),
            None => r == Ok::<bool, ParseError>(false) && final(display)@ == old(display)@,
        }),
        state.state_change == StateChanges::BlueSkyNotificationUpdate ==> (
        match state.blue_sky_notification_data {
            Some(ref n) => r == Ok::<bool, ParseError>(true) && spec_cmds(final(display)@)
                == spec_cmds(old(display)@) + spec_notification_cmds(
                Point { x: 160, y: 0 },
                n@,
            ),
            None => r == Ok::<bool, ParseError>(false) && final(display)@ == old(display)@,
        }),
        state.state_change == StateChanges::ForecastUpdated ==> (
        match state.forecast {
            Some(ref f) => {
                if spec_forecast_strings_ok(f@.daily) {
                    r == Ok::<bool, ParseError>(true) && spec_cmds(final(display)@)
                        == spec_cmds(old(display)@) + spec_forecast_cmds(
                        f@,
                        state.approximately_current_time,
                    )
                } else {
                    r is Err && final(display)@ == old(display)@
                }
            },
            None => r == Ok::<bool, ParseError>(false) && final(display)@ == old(display)@,
        }),
{
    match state.state_change {
        StateChanges::NoChange => Ok(false),
        StateChanges::TimeSet => Ok(false),
        StateChanges::OfficeStatusUpdated => Ok(false),
        StateChanges::NewTimeDigit => {
            if let Some(date_time) = state.approximately_current_time {
                draw_time(date_time, display);
            }
            Ok(true)
        },
        StateChanges::SensorUpdate => {
            match state.sensor_data {
                Some(sensor_data) => {
                    draw_scd_data(Point { x: 5, y: 50 }, sensor_data, fahrenheit, display);
                    Ok(true)
                },
                None => Ok(false),
            }
        },
        StateChanges::BlueSkyNotificationUpdate => {
            match &state.blue_sky_notification_data {
                Some(notification_data) => {
                    draw_blue_sky_notification(
                        Point { x: 160, y: 0 },
                        notification_data,
                        display,
                    );
                    Ok(true)
                },
                None => Ok(false),
            }
        },
        StateChanges::ForecastUpdated => {
            match &state.forecast {
                Some(forecast) => {
                    if !forecast_strings_valid(&forecast.daily) {
                        return Err(ParseError::BadSyntax);
                    }
                    let todays_sunset = forecast.daily.sunset[0].as_str();
                    let sunset_time = match crate::parse::format_short_datetime(todays_sunset) {
                        Ok(dt) => dt,
                        Err(e) => {
                            proof {
                                assert(forecast@.daily.time[0] == forecast.daily.time@[0]@);
                                assert(crate::parse::spec_date_shape(forecast@.daily.time[0]));
                                assert(forecast@.daily.sunset[0] == forecast.daily.sunset@[0]@);
                                assert(false);
                            }
                            return Err(e);
                        },
                    };
                    let mut daytime = true;
                    if let Some(current_time) = state.approximately_current_time {
                        if current_time.hour > sunset_time.hour || (sunset_time.hour
                            == current_time.hour && current_time.minute > sunset_time.minute) {
                            daytime = false;
                        }
                    }
                    proof {
                        assert(forecast@.daily.time[0] == forecast.daily.time@[0]@);
                        assert(crate::parse::spec_date_shape(forecast@.daily.time[0]));
                        assert(forecast@.daily.sunset[0] == forecast.daily.sunset@[0]@);
                        assert(daytime == spec_daytime(
                            state.approximately_current_time,
                            forecast@.daily.sunset[0],
                        ));
                    }

                    let ghost cur = state.approximately_current_time;
                    let mut i: usize = 0;
                    while i < 5
                        invariant
                            0 <= i <= 5,
                            forecast.well_formed(),
                            spec_forecast_strings_ok(forecast@.daily),
                            spec_cmds(display@) == spec_cmds(old(display)@)
                                + spec_forecast_boxes(forecast@, cur, i as int),
                            cur == state.approximately_current_time,
                        decreases 5 - i,
                    {
                        proof {
                            assert(forecast@.daily.time[i as int]
                                == forecast.daily.time@[i as int]@);
                            assert(forecast@.daily.sunrise[i as int]
                                == forecast.daily.sunrise@[i as int]@);
                            assert(forecast@.daily.sunset[i as int]
                                == forecast.daily.sunset@[i as int]@);
                            assert(forecast@.daily_units.temperature_2m_max
                                == forecast.daily_units.temperature_2m_max@);
                        }
                        let box_result = draw_weather_forecast_box(
                            Point { x: (i as i32) * 80, y: 145 },
                            80,
                            forecast.daily.time[i].as_str(),
                            forecast.daily_units.temperature_2m_max.as_str(),
                            forecast.daily.temperature_2m_max[i],
                            forecast.daily.temperature_2m_min[i],
                            forecast.daily.weather_code[i],
                            forecast.daily.sunrise[i].as_str(),
                            forecast.daily.sunset[i].as_str(),
                            state.approximately_current_time,
                            i as u8,
                            display,
                        );
                        if let Err(e) = box_result {
                            proof {
                                assert(false);
                            }
                            return Err(e);
                        }
                        proof {
                            assert(spec_forecast_boxes(forecast@, cur, i + 1) =~=
                                spec_forecast_boxes(forecast@, cur, i as int)
                                + spec_forecast_box_cmds(
                                Point { x: (80 * (i as int)) as i32, y: 145 },
                                80,
                                forecast@.daily.time[i as int],
                                forecast@.daily_units.temperature_2m_max,
                                forecast@.daily.temperature_2m_max[i as int],
                                forecast@.daily.temperature_2m_min[i as int],
                                forecast@.daily.weather_code[i as int],
                                forecast@.daily.sunrise[i as int],
                                forecast@.daily.sunset[i as int],
                                cur,
                                i as u8,
                            ));
                            assert(spec_cmds(display@) =~= spec_cmds(old(display)@)
                                + spec_forecast_boxes(forecast@, cur, i + 1));
                        }
                        i = i + 1;
                    }

                    draw_current_outside_weather(
                        Point { x: 85, y: 50 },
                        &forecast.current,
                        &forecast.current_units,
                        daytime,
                        display,
                    );
                    proof {
                        assert(spec_cmds(final(display)@) =~= spec_cmds(old(display)@)
                            + spec_forecast_cmds(forecast@, cur));
                    }
                    Ok(true)
                },
                None => Ok(false),
            }
        },
    }
}

/// The `HH:MM` tail of a short timestamp, for the sunrise and sunset rows.
fn time_part_of(s: &str) -> (r: String)
    requires
        crate::parse::spec_short_datetime_shape(s@),
    ensures
        r@ == spec_time_part(s@),
{
    proof {
        let v = s@;
        let date_part = v.subrange(0, 10);
        assert forall|j: int| 0 <= j < 10 implies v[j] != 'T' by {
            if j == 4 || j == 7 {
                assert(date_part[j] == '-');
            } else if j < 4 {
                assert(crate::parse::spec_is_digit(date_part.subrange(0, 4)[j]));
            } else if j < 7 {
                assert(crate::parse::spec_is_digit(date_part.subrange(5, 7)[j - 5]));
            } else {
                assert(crate::parse::spec_is_digit(date_part.subrange(8, 10)[j - 8]));
            }
        }
    }
    match crate::parse::return_str_time(s) {
        Ok(t) => {
            proof {
                let i = choose|i: int|
                    {
                        &&& 0 <= i < s@.len()
                        &&& s@[i] == 'T'
                        &&& (forall|j: int| 0 <= j < i ==> s@[j] != 'T')
                        &&& t@ == s@.subrange(i + 1, s@.len() as int)
                    };
                assert(s@[10] == 'T');
                assert(i == 10);
            }
            String::from_str(t)
        },
        Err(_) => {
            proof {
                assert(s@[10] == 'T');
                assert(false);
            }
            String::new()
        },
    }
}

} // verus!
