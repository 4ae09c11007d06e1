//! Mapping WMO weather interpretation codes to the panel's icon set.
//!
//! The forecast service reports conditions as numeric WMO codes: 0 clear
//! sky; 1-3 mainly clear through overcast; 45/48 fog; 51-55 drizzle; 56/57
//! freezing drizzle; 61-65 rain; 66/67 freezing rain; 71-77 snow; 80-82
//! rain showers; 85/86 snow showers; 95-99 thunderstorms.  Each icon names
//! the bitmap asset the renderer blits for it.

use vstd::prelude::*;

verus! {

/// One icon of the panel's monochrome set.
#[derive(Clone, Copy, Debug, PartialEq, Eq, Structural)]
pub enum WeatherIcon {
    ChanceRain,
    ChanceSleet,
    Clear,
    Cloudy,
    Flurries,
    Fog,
    MostlyCloudy,
    NtClear,
    PartlyCloudy,
    Rain,
    Sleet,
    Snow,
    TStorms,
    Unknown,
}

/// The asset name of each icon's bitmap.
pub open spec fn spec_icon_name(icon: WeatherIcon) -> Seq<char> {
    match icon {
        WeatherIcon::ChanceRain => "chancerain"@,
        WeatherIcon::ChanceSleet => "chancesleet"@,
        WeatherIcon::Clear => "clear"@,
        WeatherIcon::Cloudy => "cloudy"@,
        WeatherIcon::Flurries => "flurries"@,
        WeatherIcon::Fog => "fog"@,
        WeatherIcon::MostlyCloudy => "mostlycloudy"@,
        WeatherIcon::NtClear => "nt_clear"@,
        WeatherIcon::PartlyCloudy => "partlycloudy"@,
        WeatherIcon::Rain => "rain"@,
        WeatherIcon::Sleet => "sleet"@,
        WeatherIcon::Snow => "snow"@,
        WeatherIcon::TStorms => "tstorms"@,
        WeatherIcon::Unknown => "unknown"@,
    }
}

/// The icon a daytime weather code selects.
pub open spec fn spec_weather_icon(code: u8) -> WeatherIcon {
    if code == 0 {
        WeatherIcon::Clear
    } else if code == 1 {
        WeatherIcon::PartlyCloudy
    } else if code == 2 {
        WeatherIcon::MostlyCloudy
    } else if code == 3 {
        WeatherIcon::Cloudy
    } else if code == 45 || code == 48 {
        WeatherIcon::Fog
    } else if code == 51 || code == 53 || code == 55 {
        WeatherIcon::ChanceRain
    } else if code == 56 || code == 57 {
        WeatherIcon::ChanceSleet
    } else if code == 61 || code == 63 || code == 65 {
        WeatherIcon::Rain
    } else if code == 66 || code == 67 {
        WeatherIcon::Sleet
    } else if code == 71 {
        WeatherIcon::Flurries
    } else if code == 73 || code == 75 || code == 77 {
        WeatherIcon::Snow
    } else if code == 80 || code == 81 || code == 82 {
        WeatherIcon::Rain
    } else if code == 85 || code == 86 {
        WeatherIcon::Snow
    } else if code == 95 || code == 96 || code == 99 {
        WeatherIcon::TStorms
    } else {
        WeatherIcon::Unknown
    }
}

impl WeatherIcon {
    /// The name of the bitmap asset to blit for this icon.
    pub fn get_icon(&self) -> (r: &'static str)
        ensures
            r@ == spec_icon_name(*self),
    {
        match self {
            WeatherIcon::ChanceRain => "chancerain",
            WeatherIcon::ChanceSleet => "chancesleet",
            WeatherIcon::Clear => "clear",
            WeatherIcon::Cloudy => "cloudy",
            WeatherIcon::Flurries => "flurries",
            WeatherIcon::Fog => "fog",
            WeatherIcon::MostlyCloudy => "mostlycloudy",
            WeatherIcon::NtClear => "nt_clear",
            WeatherIcon::PartlyCloudy => "partlycloudy",
            WeatherIcon::Rain => "rain",
            WeatherIcon::Sleet => "sleet",
            WeatherIcon::Snow => "snow",
            WeatherIcon::TStorms => "tstorms",
            WeatherIcon::Unknown => "unknown",
        }
    }
}

/// Selects the daytime icon for a WMO weather code; codes outside the
/// interpretation table fall to `Unknown`.
pub fn get_weather_icon(code: u8) -> (r: WeatherIcon)
    ensures
        r == spec_weather_icon(code),
{
    match code {
        0 => WeatherIcon::Clear,
        1 => WeatherIcon::PartlyCloudy,
        2 => WeatherIcon::MostlyCloudy,
        3 => WeatherIcon::Cloudy,
        45 | 48 => WeatherIcon::Fog,
        51 | 53 | 55 => WeatherIcon::ChanceRain,
        56 | 57 => WeatherIcon::ChanceSleet,
        61 | 63 | 65 => WeatherIcon::Rain,
        66 | 67 => WeatherIcon::Sleet,
        71 => WeatherIcon::Flurries,
        73 | 75 | 77 => WeatherIcon::Snow,
        80 | 81 | 82 => WeatherIcon::Rain,
        85 | 86 => WeatherIcon::Snow,
        95 | 96 | 99 => WeatherIcon::TStorms,
        _ => WeatherIcon::Unknown,
    }
}

/// Selects the night-time icon for a WMO weather code.  Only the clear-sky
/// night icon exists in the asset set so far, so every code maps to it.
pub fn get_night_weather_icon(code: u8) -> (r: WeatherIcon)
    ensures
        r == WeatherIcon::NtClear,
{
    match code {
        0 => WeatherIcon::NtClear,
        _ => WeatherIcon::NtClear,
    }
}

} // verus!
