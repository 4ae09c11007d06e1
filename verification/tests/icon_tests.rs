use home_display::weather_icons::{get_night_weather_icon, get_weather_icon, WeatherIcon};

#[test]
fn rain_code_maps_to_rain_icon() {
    assert_eq!(get_weather_icon(61), WeatherIcon::Rain);
}

#[test]
fn clear_code_maps_to_clear_icon() {
    assert_eq!(get_weather_icon(0), WeatherIcon::Clear);
}

#[test]
fn interpretation_table_is_respected() {
    assert_eq!(get_weather_icon(1), WeatherIcon::PartlyCloudy);
    assert_eq!(get_weather_icon(2), WeatherIcon::MostlyCloudy);
    assert_eq!(get_weather_icon(3), WeatherIcon::Cloudy);
    assert_eq!(get_weather_icon(45), WeatherIcon::Fog);
    assert_eq!(get_weather_icon(48), WeatherIcon::Fog);
    assert_eq!(get_weather_icon(51), WeatherIcon::ChanceRain);
    assert_eq!(get_weather_icon(56), WeatherIcon::ChanceSleet);
    assert_eq!(get_weather_icon(63), WeatherIcon::Rain);
    assert_eq!(get_weather_icon(66), WeatherIcon::Sleet);
    assert_eq!(get_weather_icon(71), WeatherIcon::Flurries);
    assert_eq!(get_weather_icon(75), WeatherIcon::Snow);
    assert_eq!(get_weather_icon(77), WeatherIcon::Snow);
    assert_eq!(get_weather_icon(80), WeatherIcon::Rain);
    assert_eq!(get_weather_icon(85), WeatherIcon::Snow);
    assert_eq!(get_weather_icon(95), WeatherIcon::TStorms);
    assert_eq!(get_weather_icon(99), WeatherIcon::TStorms);
    // A code outside the interpretation table.
    assert_eq!(get_weather_icon(42), WeatherIcon::Unknown);
}

#[test]
fn night_icons_are_all_clear_for_now() {
    assert_eq!(get_night_weather_icon(0), WeatherIcon::NtClear);
    assert_eq!(get_night_weather_icon(61), WeatherIcon::NtClear);
}

#[test]
fn icons_name_their_assets() {
    assert_eq!(WeatherIcon::Rain.get_icon(), "rain");
    assert_eq!(WeatherIcon::Clear.get_icon(), "clear");
    assert_eq!(WeatherIcon::NtClear.get_icon(), "nt_clear");
    assert_eq!(WeatherIcon::ChanceRain.get_icon(), "chancerain");
    assert_eq!(WeatherIcon::Unknown.get_icon(), "unknown");
}
