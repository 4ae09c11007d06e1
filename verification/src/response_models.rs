//! Typed records decoded from the forecast and time services.
//!
//! Temperatures are carried in tenths of a degree, exactly as the service
//! writes them with one fractional digit, so the display math stays exact.
//! The daily record holds parallel arrays; a decoded record is only handed
//! on when every array has the same length and the forecast covers five to
//! seven days, which the decoder checks rather than assumes.

use vstd::prelude::*;

verus! {

/// Units the service used for the current-conditions fields.
#[derive(Debug, PartialEq, Eq)]
pub struct CurrentUnits {
    pub time: String,
    pub interval: String,
    pub temperature_2m: String,
    pub relative_humidity_2m: String,
}

/// Mathematical content of `CurrentUnits`: the unit texts.
pub ghost struct CurrentUnitsView {
    pub time: Seq<char>,
    pub interval: Seq<char>,
    pub temperature_2m: Seq<char>,
    pub relative_humidity_2m: Seq<char>,
}

impl View for CurrentUnits {
    type V = CurrentUnitsView;

    open spec fn view(&self) -> CurrentUnitsView {
        CurrentUnitsView {
            time: self.time@,
            interval: self.interval@,
            temperature_2m: self.temperature_2m@,
            relative_humidity_2m: self.relative_humidity_2m@,
        }
    }
}

impl Clone for CurrentUnits {
    fn clone(&self) -> (r: Self)
        ensures
            r@ == self@,
    {
        CurrentUnits {
            time: self.time.clone(),
            interval: self.interval.clone(),
            temperature_2m: self.temperature_2m.clone(),
            relative_humidity_2m: self.relative_humidity_2m.clone(),
        }
    }
}

/// The current conditions: temperature in tenths of a degree, relative
/// humidity in percent, and the WMO weather code.
#[derive(Debug, PartialEq, Eq)]
pub struct Current {
    pub time: String,
    pub interval: i64,
    pub temperature_2m: i32,
    pub relative_humidity_2m: i64,
    pub weather_code: u8,
}

/// Mathematical content of `Current`.
pub ghost struct CurrentView {
    pub time: Seq<char>,
    pub interval: int,
    pub temperature_2m: int,
    pub relative_humidity_2m: int,
    pub weather_code: u8,
}

impl View for Current {
    type V = CurrentView;

    open spec fn view(&self) -> CurrentView {
        CurrentView {
            time: self.time@,
            interval: self.interval as int,
            temperature_2m: self.temperature_2m as int,
            relative_humidity_2m: self.relative_humidity_2m as int,
            weather_code: self.weather_code,
        }
    }
}

impl Clone for Current {
    fn clone(&self) -> (r: Self)
        ensures
            r@ == self@,
    {
        Current {
            time: self.time.clone(),
            interval: self.interval,
            temperature_2m: self.temperature_2m,
            relative_humidity_2m: self.relative_humidity_2m,
            weather_code: self.weather_code,
        }
    }
}

/// Units the service used for the daily fields.
#[derive(Debug, PartialEq, Eq)]
pub struct DailyUnits {
    pub time: String,
    pub temperature_2m_max: String,
    pub temperature_2m_min: String,
    pub precipitation_probability_max: String,
}

/// Mathematical content of `DailyUnits`: the unit texts.
pub ghost struct DailyUnitsView {
    pub time: Seq<char>,
    pub temperature_2m_max: Seq<char>,
    pub temperature_2m_min: Seq<char>,
    pub precipitation_probability_max: Seq<char>,
}

impl View for DailyUnits {
    type V = DailyUnitsView;

    open spec fn view(&self) -> DailyUnitsView {
        DailyUnitsView {
            time: self.time@,
            temperature_2m_max: self.temperature_2m_max@,
            temperature_2m_min: self.temperature_2m_min@,
            precipitation_probability_max: self.precipitation_probability_max@,
        }
    }
}

impl Clone for DailyUnits {
    fn clone(&self) -> (r: Self)
        ensures
            r@ == self@,
    {
        DailyUnits {
            time: self.time.clone(),
            temperature_2m_max: self.temperature_2m_max.clone(),
            temperature_2m_min: self.temperature_2m_min.clone(),
            precipitation_probability_max: self.precipitation_probability_max.clone(),
        }
    }
}

/// The texts a vector of strings holds.
pub open spec fn text_views(v: Seq<String>) -> Seq<Seq<char>> {
    v.map_values(|s: String| s@)
}

/// Duplicates a vector of texts, keeping every text.
pub fn clone_text_items(v: &Vec<String>) -> (r: Vec<String>)
    ensures
        text_views(r@) == text_views(v@),
{
    let r = v.clone();
    proof {
        assert forall|i: int| 0 <= i < v@.len() implies text_views(r@)[i] == text_views(v@)[i] by {
            assert(cloned::<String>(v@[i], r@[i]));
        }
        assert(text_views(r@) =~= text_views(v@));
    }
    r
}

/// The daily forecast as parallel arrays: one entry per day, dates written
/// `YYYY-MM-DD`, sunrise and sunset written `YYYY-MM-DDTHH:MM`, and
/// temperatures in tenths of a degree.
#[derive(Debug, PartialEq, Eq)]
pub struct Daily {
    pub time: Vec<String>,
    pub weather_code: Vec<u8>,
    pub temperature_2m_max: Vec<i32>,
    pub temperature_2m_min: Vec<i32>,
    pub sunrise: Vec<String>,
    pub sunset: Vec<String>,
    pub precipitation_probability_max: Vec<i64>,
}

/// Mathematical content of `Daily`: one sequence per parallel array.
pub ghost struct DailyView {
    pub time: Seq<Seq<char>>,
    pub weather_code: Seq<u8>,
    pub temperature_2m_max: Seq<int>,
    pub temperature_2m_min: Seq<int>,
    pub sunrise: Seq<Seq<char>>,
    pub sunset: Seq<Seq<char>>,
    pub precipitation_probability_max: Seq<int>,
}

impl View for Daily {
    type V = DailyView;

    open spec fn view(&self) -> DailyView {
        DailyView {
            time: text_views(self.time@),
            weather_code: self.weather_code@,
            temperature_2m_max: self.temperature_2m_max@.map_values(|t: i32| t as int),
            temperature_2m_min: self.temperature_2m_min@.map_values(|t: i32| t as int),
            sunrise: text_views(self.sunrise@),
            sunset: text_views(self.sunset@),
            precipitation_probability_max: self.precipitation_probability_max@.map_values(
                |p: i64| p as int,
            ),
        }
    }
}

impl Clone for Daily {
    fn clone(&self) -> (r: Self)
        ensures
            r@ == self@,
    {
        let r = Daily {
            time: clone_text_items(&self.time),
            weather_code: self.weather_code.clone(),
            temperature_2m_max: self.temperature_2m_max.clone(),
            temperature_2m_min: self.temperature_2m_min.clone(),
            sunrise: clone_text_items(&self.sunrise),
            sunset: clone_text_items(&self.sunset),
            precipitation_probability_max: self.precipitation_probability_max.clone(),
        };
        proof {
            assert(r.weather_code@ =~= self.weather_code@);
            assert(r.temperature_2m_max@ =~= self.temperature_2m_max@);
            assert(r.temperature_2m_min@ =~= self.temperature_2m_min@);
            assert(r.precipitation_probability_max@ =~= self.precipitation_probability_max@);
        }
        r
    }
}

impl Daily {
    /// Every parallel array covers the same days, the forecast spans five
    /// to seven of them, and the temperatures leave the extreme value free
    /// so that display arithmetic cannot wrap.
    pub open spec fn well_formed(self) -> bool {
        &&& 5 <= self.time@.len() <= 7
        &&& self.weather_code@.len() == self.time@.len()
        &&& self.temperature_2m_max@.len() == self.time@.len()
        &&& self.temperature_2m_min@.len() == self.time@.len()
        &&& self.sunrise@.len() == self.time@.len()
        &&& self.sunset@.len() == self.time@.len()
        &&& self.precipitation_probability_max@.len() == self.time@.len()
        &&& forall|i: int|
            0 <= i < self.time@.len() ==> #[trigger] self.temperature_2m_max@[i] > i32::MIN
        &&& forall|i: int|
            0 <= i < self.time@.len() ==> #[trigger] self.temperature_2m_min@[i] > i32::MIN
    }

    /// How many days the forecast covers.
    pub fn days(&self) -> (r: usize)
        ensures
            r == self.time@.len(),
    {
        self.time.len()
    }
}

/// One decoded forecast: current conditions with their units and the daily
/// arrays with theirs.  Replaced wholesale on each successful fetch, never
/// merged.
#[derive(Debug, PartialEq, Eq)]
pub struct ForecastResponse {
    pub current_units: CurrentUnits,
    pub current: Current,
    pub daily_units: DailyUnits,
    pub daily: Daily,
}

/// Mathematical content of a decoded forecast.
pub ghost struct ForecastResponseView {
    pub current_units: CurrentUnitsView,
    pub current: CurrentView,
    pub daily_units: DailyUnitsView,
    pub daily: DailyView,
}

impl View for ForecastResponse {
    type V = ForecastResponseView;

    open spec fn view(&self) -> ForecastResponseView {
        ForecastResponseView {
            current_units: self.current_units@,
            current: self.current@,
            daily_units: self.daily_units@,
            daily: self.daily@,
        }
    }
}

impl Clone for ForecastResponse {
    fn clone(&self) -> (r: Self)
        ensures
            r@ == self@,
    {
        ForecastResponse {
            current_units: self.current_units.clone(),
            current: self.current.clone(),
            daily_units: self.daily_units.clone(),
            daily: self.daily.clone(),
        }
    }
}

impl ForecastResponse {
    pub open spec fn well_formed(self) -> bool {
        &&& self.daily.well_formed()
        &&& self.current.temperature_2m > i32::MIN
        &&& self.current.relative_humidity_2m > i64::MIN
    }
}

/// The time service's answer: the current moment as text and the day of
/// week numbered from zero at Sunday.
#[derive(Debug, PartialEq, Eq)]
pub struct TimeApiResponse {
    pub datetime: String,
    pub day_of_week: u8,
}

/// Mathematical content of the time service's answer.
pub ghost struct TimeApiResponseView {
    pub datetime: Seq<char>,
    pub day_of_week: u8,
}

impl View for TimeApiResponse {
    type V = TimeApiResponseView;

    open spec fn view(&self) -> TimeApiResponseView {
        TimeApiResponseView { datetime: self.datetime@, day_of_week: self.day_of_week }
    }
}

impl Clone for TimeApiResponse {
    fn clone(&self) -> (r: Self)
        ensures
            r@ == self@,
    {
        TimeApiResponse { datetime: self.datetime.clone(), day_of_week: self.day_of_week }
    }
}

} // verus!
