use chrono::{Datelike, Duration, Local, NaiveDate};
use weather_cli::date::{Date, DateOption};
use weather_cli::weatherapi_strategy::{WeatherApiStrategy, WeatherRequest};

fn lib_date(d: NaiveDate) -> Date {
    Date::from_ymd(d.year(), d.month(), d.day()).unwrap()
}

fn today() -> Date {
    lib_date(Local::now().date_naive())
}

fn date_option_string(date: NaiveDate) -> String {
    let date_string = date.to_string();
    format!("date={date_string}")
}

fn date_from_now(days: i64) -> NaiveDate {
    Local::now().date_naive() + Duration::days(days)
}

fn query_for_date(date: NaiveDate) -> String {
    let date_param = date_option_string(date);
    let date_option = DateOption::new(date_param.as_bytes(), today());
    let q = WeatherRequest::new(b"test_city, UA", date_option)
        .query(b"some_api_key")
        .unwrap();
    String::from_utf8(q).unwrap()
}

#[test]
fn weather_request_for_17_days_in_past() {
    let date = date_from_now(-17);
    let query = query_for_date(date);
    let sample = "https://api.weatherapi.com/v1/history.json?".to_string()
        + "dt="
        + &date.to_string()
        + "&key=some_api_key&q=test_city%2C+UA";
    assert_eq!(query, sample);
}

#[test]
fn weather_request_for_now() {
    let date = date_from_now(0);
    let query = query_for_date(date);
    let sample = "https://api.weatherapi.com/v1/forecast.json?".to_string()
        + "days=1"
        + "&key=some_api_key&q=test_city%2C+UA";
    assert_eq!(query, sample);
}

#[test]
fn weather_request_for_13_days_future() {
    let date = date_from_now(13);
    let query = query_for_date(date);
    let sample = "https://api.weatherapi.com/v1/forecast.json?".to_string()
        + "days=14"
        + "&key=some_api_key&q=test_city%2C+UA";
    assert_eq!(query, sample);
}

#[test]
fn weather_request_for_14_days_future() {
    let date = date_from_now(14);
    let query = query_for_date(date);
    let sample = "https://api.weatherapi.com/v1/future.json?".to_string()
        + "dt="
        + &date.to_string()
        + "&key=some_api_key&q=test_city%2C+UA";
    assert_eq!(query, sample);
}

#[test]
fn weatherapi_build_request_resolves_the_expression() {
    let strategy = WeatherApiStrategy;
    let today = Date::from_ymd(2023, 3, 1).unwrap();
    let q = strategy
        .build_request(b"Kyiv, UA", b"date=2023-02-25", today, b"some_api_key")
        .unwrap();
    let sample = "https://api.weatherapi.com/v1/history.json?dt=2023-02-25\
                  &key=some_api_key&q=Kyiv%2C+UA";
    assert_eq!(String::from_utf8(q).unwrap(), sample);
}

#[test]
fn weatherapi_accepts_any_far_future_date() {
    let strategy = WeatherApiStrategy;
    let today = Date::from_ymd(2023, 3, 1).unwrap();
    let q = strategy
        .build_request(b"Kyiv, UA", b"date=2031-03-01", today, b"some_api_key")
        .unwrap();
    let sample =
        "https://api.weatherapi.com/v1/future.json?dt=2031-03-01&key=some_api_key&q=Kyiv%2C+UA";
    assert_eq!(String::from_utf8(q).unwrap(), sample);
}
