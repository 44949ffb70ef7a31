use weather_cli::date::Date;
use weather_cli::weather_service::{
    build_forecast_query, weather_forecast, ForecastError, ParseError, QueryError, WeatherService,
};

fn fixed(y: i32, m: u32, d: u32) -> Date {
    Date::from_ymd(y, m, d).unwrap()
}

const WA_FIXTURE: &str = r#"{
  "location": {"name": "Kyiv", "region": "Kyiv Oblast", "country": "Ukraine"},
  "forecast": {"forecastday": [
    {"date": "2023-03-02", "day": {"maxtemp_c": 5.2, "mintemp_c": -1.0, "avgtemp_c": 2.1,
      "maxwind_kph": 14.8, "avghumidity": 73.0, "condition": {"text": "Sunny"}}}
  ]}
}"#;

#[test]
fn unknown_provider_fails_before_any_transport() {
    let r = weather_forecast(
        Some(b"accuweather"),
        b"Kyiv, UA",
        b"date=now",
        fixed(2023, 3, 1),
        b"key",
        None,
    );
    assert_eq!(r.unwrap_err(), ForecastError::UnknownProvider);
}

#[test]
fn missing_provider_fails_before_any_transport() {
    let r = weather_forecast(None, b"Kyiv, UA", b"date=now", fixed(2023, 3, 1), b"key", None);
    assert_eq!(r.unwrap_err(), ForecastError::MissingProvider);
}

#[test]
fn out_of_window_date_is_rejected_before_transport() {
    let r = weather_forecast(
        Some(b"openweather"),
        b"Kyiv, UA",
        b"date=2023-02-25",
        fixed(2023, 3, 1),
        b"key",
        None,
    );
    assert_eq!(
        r.unwrap_err(),
        ForecastError::RequestRejected(QueryError::DateOutOfRange)
    );
}

#[test]
fn transport_failure_short_circuits() {
    let r = weather_forecast(
        Some(b"weatherapi"),
        b"Kyiv, UA",
        b"date=now",
        fixed(2023, 3, 1),
        b"key",
        None,
    );
    assert_eq!(r.unwrap_err(), ForecastError::TransportFailure);
}

#[test]
fn non_success_status_is_a_transport_failure() {
    let r = weather_forecast(
        Some(b"weatherapi"),
        b"Kyiv, UA",
        b"date=now",
        fixed(2023, 3, 1),
        b"key",
        Some((503, WA_FIXTURE.as_bytes().to_vec())),
    );
    assert_eq!(r.unwrap_err(), ForecastError::TransportFailure);
}

#[test]
fn parse_failures_surface_as_invalid_response() {
    let r = weather_forecast(
        Some(b"weatherapi"),
        b"Kyiv, UA",
        b"date=now",
        fixed(2023, 3, 1),
        b"key",
        Some((200, b"not json".to_vec())),
    );
    assert_eq!(
        r.unwrap_err(),
        ForecastError::InvalidResponse(ParseError::MalformedPayload)
    );
}

#[test]
fn forecast_round_trip_for_kyiv() {
    // Compose the query for the address and parse a matching
    // well-formed payload; the record names the queried city and the
    // last listed day.
    let today = fixed(2023, 3, 1);
    let query = build_forecast_query(
        &WeatherService::WeatherApi,
        b"Kyiv, UA",
        b"date=2023-03-02",
        today,
        b"key",
    )
    .unwrap();
    let query = String::from_utf8(query).unwrap();
    assert!(query.contains("q=Kyiv%2C+UA"));
    assert!(query.starts_with("https://api.weatherapi.com/v1/forecast.json?days=2"));
    let r = weather_forecast(
        Some(b"weatherapi"),
        b"Kyiv, UA",
        b"date=2023-03-02",
        today,
        b"key",
        Some((200, WA_FIXTURE.as_bytes().to_vec())),
    )
    .unwrap();
    let location = String::from_utf8(r.location).unwrap();
    assert!(location.contains("Kyiv"));
    assert_eq!(r.date, b"2023-03-02".to_vec());
}

#[test]
fn empty_day_list_surfaces_as_invalid_response() {
    let body = r#"{"location": {"name": "Kyiv", "region": "R", "country": "UA"},
                   "forecast": {"forecastday": []}}"#;
    let r = weather_forecast(
        Some(b"weatherapi"),
        b"Kyiv, UA",
        b"date=now",
        fixed(2023, 3, 1),
        b"key",
        Some((200, body.as_bytes().to_vec())),
    );
    assert_eq!(
        r.unwrap_err(),
        ForecastError::InvalidResponse(ParseError::NoForecastAvailable)
    );
}

#[test]
fn addresses_are_form_urlencoded() {
    let today = fixed(2023, 3, 1);
    let q = build_forecast_query(
        &WeatherService::WeatherApi,
        "Köln, *test*_-. DE".as_bytes(),
        b"date=now",
        today,
        b"key",
    )
    .unwrap();
    let q = String::from_utf8(q).unwrap();
    // Unreserved bytes stand, a space becomes '+', everything else an
    // uppercase percent escape.
    assert!(q.ends_with("&q=K%C3%B6ln%2C+*test*_-.+DE"));
}

#[test]
fn query_builder_reports_selection_failures() {
    let today = fixed(2023, 3, 1);
    let r = build_forecast_query(&WeatherService::UnknownService, b"a", b"date=now", today, b"k");
    assert_eq!(r.unwrap_err(), ForecastError::UnknownProvider);
    let r = build_forecast_query(&WeatherService::MissingService, b"a", b"date=now", today, b"k");
    assert_eq!(r.unwrap_err(), ForecastError::MissingProvider);
}
