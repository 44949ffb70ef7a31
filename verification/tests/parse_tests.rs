use chrono::NaiveDate;
use weather_cli::open_weather_strategy::OpenWeatherStrategy;
use weather_cli::weather_service::ParseError;
use weather_cli::weatherapi_strategy::WeatherApiStrategy;

const WA_FIXTURE: &str = r#"{
  "location": {"name": "Kyiv", "region": "Kyiv Oblast", "country": "Ukraine"},
  "forecast": {"forecastday": [
    {"date": "2023-02-24", "day": {"maxtemp_c": 1.0, "mintemp_c": -3.0, "avgtemp_c": -1.2,
      "maxwind_kph": 10.0, "avghumidity": 80.0, "condition": {"text": "Overcast"}}},
    {"date": "2023-02-25", "day": {"maxtemp_c": 5.2, "mintemp_c": -1.0, "avgtemp_c": 2.1,
      "maxwind_kph": 14.8, "avghumidity": 73.0, "condition": {"text": "Sunny"}}}
  ]}
}"#;

#[test]
fn weatherapi_parses_the_last_day_entry() {
    let r = WeatherApiStrategy.build_response(WA_FIXTURE.as_bytes()).unwrap();
    assert_eq!(r.location, b"Kyiv, Kyiv Oblast, Ukraine".to_vec());
    assert_eq!(r.date, b"2023-02-25".to_vec());
    assert_eq!(r.max_temp, b"5.2".to_vec());
    assert_eq!(r.min_temp, b"-1.0".to_vec());
    assert_eq!(r.avg_temp, b"2.1".to_vec());
    assert_eq!(r.maxwind_kph, b"14.8".to_vec());
    assert_eq!(r.avghumidity, b"73.0".to_vec());
    assert_eq!(r.condition, b"Sunny".to_vec());
}

#[test]
fn weatherapi_empty_day_list_is_recoverable() {
    let body = r#"{"location": {"name": "Kyiv", "region": "", "country": "UA"},
                   "forecast": {"forecastday": []}}"#;
    let r = WeatherApiStrategy.build_response(body.as_bytes());
    assert_eq!(r.unwrap_err(), ParseError::NoForecastAvailable);
}

#[test]
fn weatherapi_missing_region_degrades() {
    let body = r#"{"location": {"name": "Kyiv", "country": "Ukraine"},
                   "forecast": {"forecastday": [
                     {"date": "2023-02-25", "day": {"maxtemp_c": 5.2, "mintemp_c": -1.0,
                       "avgtemp_c": 2.1, "maxwind_kph": 14.8, "avghumidity": 73.0,
                       "condition": {"text": "Sunny"}}}]}}"#;
    let r = WeatherApiStrategy.build_response(body.as_bytes()).unwrap();
    assert_eq!(r.location, b"Kyiv, Ukraine".to_vec());
}

#[test]
fn weatherapi_missing_condition_degrades_to_empty() {
    let body = r#"{"location": {"name": "Kyiv", "region": "R", "country": "UA"},
                   "forecast": {"forecastday": [
                     {"date": "2023-02-25", "day": {"maxtemp_c": 5.2, "mintemp_c": -1.0,
                       "avgtemp_c": 2.1, "maxwind_kph": 14.8, "avghumidity": 73.0}}]}}"#;
    let r = WeatherApiStrategy.build_response(body.as_bytes()).unwrap();
    assert_eq!(r.condition, b"".to_vec());
}

#[test]
fn weatherapi_missing_required_field_is_malformed() {
    let body = r#"{"location": {"name": "Kyiv", "region": "R", "country": "UA"},
                   "forecast": {"forecastday": [
                     {"date": "2023-02-25", "day": {"maxtemp_c": 5.2,
                       "avgtemp_c": 2.1, "maxwind_kph": 14.8, "avghumidity": 73.0,
                       "condition": {"text": "Sunny"}}}]}}"#;
    let r = WeatherApiStrategy.build_response(body.as_bytes());
    assert_eq!(r.unwrap_err(), ParseError::MalformedPayload);
}

#[test]
fn weatherapi_non_json_body_is_malformed() {
    for body in [&b"not json at all"[..], b"", b"{\"location\":", b"[1,2,3] tail"] {
        let r = WeatherApiStrategy.build_response(body);
        assert_eq!(r.unwrap_err(), ParseError::MalformedPayload);
    }
}

fn ow_fixture(ts: i64) -> String {
    format!(
        r#"{{"city": {{"name": "Kyiv", "country": "UA"}},
            "list": [
              {{"dt": 0, "temp": {{"day": 0.0, "min": 0.0, "max": 0.0}},
                "humidity": 50, "weather": [{{"main": "Rain"}}], "speed": 1.0}},
              {{"dt": {ts}, "temp": {{"day": 3.4, "min": -2.0, "max": 6.0}},
                "humidity": 81, "weather": [{{"main": "Clouds"}}], "speed": 4.1}}
            ]}}"#
    )
}

fn ts_of(y: i32, m: u32, d: u32) -> i64 {
    // Half past noon, so the test also covers the UTC-midnight
    // truncation of the timestamp.
    NaiveDate::from_ymd_opt(y, m, d)
        .unwrap()
        .and_hms_opt(12, 30, 0)
        .unwrap()
        .and_utc()
        .timestamp()
}

#[test]
fn openweather_parses_the_last_day_entry() {
    let ts = ts_of(2023, 2, 25);
    let r = OpenWeatherStrategy.build_response(ow_fixture(ts).as_bytes()).unwrap();
    assert_eq!(r.location, b"Kyiv, UA".to_vec());
    assert_eq!(r.date, b"2023-02-25".to_vec());
    assert_eq!(r.max_temp, b"6.0".to_vec());
    assert_eq!(r.min_temp, b"-2.0".to_vec());
    assert_eq!(r.avg_temp, b"3.4".to_vec());
    assert_eq!(r.maxwind_kph, b"4.1".to_vec());
    assert_eq!(r.avghumidity, b"81".to_vec());
    assert_eq!(r.condition, b"Clouds".to_vec());
}

#[test]
fn openweather_empty_day_list_is_recoverable() {
    let body = r#"{"city": {"name": "Kyiv", "country": "UA"}, "list": []}"#;
    let r = OpenWeatherStrategy.build_response(body.as_bytes());
    assert_eq!(r.unwrap_err(), ParseError::NoForecastAvailable);
}

#[test]
fn openweather_fractional_timestamp_is_malformed() {
    let body = r#"{"city": {"name": "Kyiv", "country": "UA"},
                   "list": [{"dt": 1.5e9, "temp": {"day": 1.0, "min": 0.0, "max": 2.0},
                             "humidity": 50, "weather": [], "speed": 1.0}]}"#;
    let r = OpenWeatherStrategy.build_response(body.as_bytes());
    assert_eq!(r.unwrap_err(), ParseError::MalformedPayload);
}

#[test]
fn openweather_unrepresentable_timestamp_is_malformed() {
    let body = r#"{"city": {"name": "Kyiv", "country": "UA"},
                   "list": [{"dt": 999999999999999, "temp": {"day": 1.0, "min": 0.0, "max": 2.0},
                             "humidity": 50, "weather": [], "speed": 1.0}]}"#;
    let r = OpenWeatherStrategy.build_response(body.as_bytes());
    assert_eq!(r.unwrap_err(), ParseError::MalformedPayload);
}

#[test]
fn openweather_empty_weather_list_degrades_to_empty_condition() {
    let ts = ts_of(2023, 2, 25);
    let body = format!(
        r#"{{"city": {{"name": "Kyiv", "country": "UA"}},
            "list": [{{"dt": {ts}, "temp": {{"day": 1.0, "min": 0.0, "max": 2.0}},
                      "humidity": 50, "weather": [], "speed": 1.0}}]}}"#
    );
    let r = OpenWeatherStrategy.build_response(body.as_bytes()).unwrap();
    assert_eq!(r.condition, b"".to_vec());
}
