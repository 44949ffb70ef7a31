use weather_cli::date::{Date, DateOption};
use weather_cli::open_weather_strategy::{OpenWeatherStrategy, WeatherRequest};
use weather_cli::weather_service::QueryError;

fn fixed(y: i32, m: u32, d: u32) -> Date {
    Date::from_ymd(y, m, d).unwrap()
}

fn request_for(expr: &[u8], today: Date) -> WeatherRequest {
    WeatherRequest::new(b"test_city, UA", DateOption::new(expr, today))
}

#[test]
fn openweather_query_for_today() {
    let today = fixed(2023, 3, 1);
    let q = request_for(b"date=now", today).query(b"some_api_key").unwrap();
    let sample = "https://api.openweathermap.org/data/2.5/forecast/daily\
                  ?q=test_city%2C+UA&cnt=1&units=metric&appid=some_api_key";
    assert_eq!(String::from_utf8(q).unwrap(), sample);
}

#[test]
fn openweather_query_for_sixteen_days_ahead() {
    let today = fixed(2023, 3, 1);
    let q = request_for(b"date=2023-03-17", today).query(b"some_api_key").unwrap();
    let sample = "https://api.openweathermap.org/data/2.5/forecast/daily\
                  ?q=test_city%2C+UA&cnt=17&units=metric&appid=some_api_key";
    assert_eq!(String::from_utf8(q).unwrap(), sample);
}

#[test]
fn openweather_rejects_seventeen_days_ahead() {
    let today = fixed(2023, 3, 1);
    let r = request_for(b"date=2023-03-18", today).query(b"some_api_key");
    assert_eq!(r, Err(QueryError::DateOutOfRange));
}

#[test]
fn openweather_rejects_yesterday() {
    let today = fixed(2023, 3, 1);
    let r = request_for(b"date=2023-02-28", today).query(b"some_api_key");
    assert_eq!(r, Err(QueryError::DateOutOfRange));
}

#[test]
fn openweather_window_boundaries() {
    let today = fixed(2023, 3, 1);
    for days in 0..=16i64 {
        let r = request_for(b"date=now", today);
        let shifted = WeatherRequest::new(
            b"test_city, UA",
            DateOption {
                date: r.date_option.date,
                days_from_now: days,
            },
        );
        assert!(shifted.query(b"k").is_ok());
    }
    for days in [-1i64, 17, 100, -50] {
        let r = request_for(b"date=now", today);
        let shifted = WeatherRequest::new(
            b"test_city, UA",
            DateOption {
                date: r.date_option.date,
                days_from_now: days,
            },
        );
        assert_eq!(shifted.query(b"k"), Err(QueryError::DateOutOfRange));
    }
}

#[test]
fn openweather_build_request_rejects_out_of_window() {
    let strategy = OpenWeatherStrategy;
    let today = fixed(2023, 3, 1);
    let r = strategy.build_request(b"Kyiv, UA", b"date=2023-02-25", today, b"some_api_key");
    assert_eq!(r, Err(QueryError::DateOutOfRange));
    let ok = strategy.build_request(b"Kyiv, UA", b"date=2023-03-05", today, b"some_api_key");
    let sample = "https://api.openweathermap.org/data/2.5/forecast/daily\
                  ?q=Kyiv%2C+UA&cnt=5&units=metric&appid=some_api_key";
    assert_eq!(String::from_utf8(ok.unwrap()).unwrap(), sample);
}
