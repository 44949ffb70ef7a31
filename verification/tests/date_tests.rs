use chrono::{Datelike, Duration, Local, NaiveDate};
use weather_cli::date::{Date, DateOption};

fn lib_date(d: NaiveDate) -> Date {
    Date::from_ymd(d.year(), d.month(), d.day()).unwrap()
}

fn today() -> Date {
    lib_date(Local::now().date_naive())
}

fn date_option_string(date: NaiveDate) -> String {
    let date_string = date.to_string();
    format!("date={date_string}")
}

fn date_from_now(days: i64) -> NaiveDate {
    Local::now().date_naive() + Duration::days(days)
}

fn assert_date_option(given_date_option: DateOption, date: NaiveDate, days_from_now: i64) {
    assert_eq!(given_date_option.date, lib_date(date));
    assert_eq!(given_date_option.days_from_now, days_from_now);
}

#[test]
fn date_for_now() {
    let curr_date = Local::now().date_naive();
    let date_param = date_option_string(curr_date);
    let date_option = DateOption::new(date_param.as_bytes(), today());
    assert_date_option(date_option, curr_date, 0)
}

#[test]
fn date_for_72_days_ago() {
    let days_ago = -72;
    let date = date_from_now(days_ago);
    let date_param = date_option_string(date);
    assert_date_option(DateOption::new(date_param.as_bytes(), today()), date, days_ago);
}

#[test]
fn date_for_86_days_in_future() {
    let days_in_future = 86;
    let date = date_from_now(days_in_future);
    let date_param = date_option_string(date);
    assert_date_option(
        DateOption::new(date_param.as_bytes(), today()),
        date,
        days_in_future,
    );
}

#[test]
fn date_for_7_days_in_future() {
    let days_in_future = 7;
    let date = date_from_now(days_in_future);
    let date_param = date_option_string(date);
    assert_date_option(
        DateOption::new(date_param.as_bytes(), today()),
        date,
        days_in_future,
    );
}

fn fixed(y: i32, m: u32, d: u32) -> Date {
    Date::from_ymd(y, m, d).unwrap()
}

#[test]
fn date_now_expression_resolves_to_today() {
    let t = fixed(2023, 3, 1);
    let r = DateOption::new(b"date=now", t);
    assert_eq!(r.date, t);
    assert_eq!(r.days_from_now, 0);
}

#[test]
fn malformed_expression_resolves_to_today() {
    let t = fixed(2023, 3, 1);
    for expr in [
        &b"gibberish"[..],
        b"",
        b"date=",
        b"date=2023-2-25",
        b"date=23-02-25",
        b"2023-02-25",
    ] {
        let r = DateOption::new(expr, t);
        assert_eq!(r.date, t);
        assert_eq!(r.days_from_now, 0);
    }
}

#[test]
fn impossible_embedded_date_resolves_to_today() {
    let t = fixed(2023, 3, 1);
    let r = DateOption::new(b"date=2023-02-30", t);
    assert_eq!(r.date, t);
    assert_eq!(r.days_from_now, 0);
    let r = DateOption::new(b"date=2023-13-01", t);
    assert_eq!(r.date, t);
    assert_eq!(r.days_from_now, 0);
}

#[test]
fn embedded_date_found_inside_text() {
    let t = fixed(2023, 3, 1);
    let r = DateOption::new(b"please date=2023-02-25 thanks", t);
    assert_eq!(r.date, fixed(2023, 2, 25));
    assert_eq!(r.days_from_now, -4);
}

#[test]
fn day_difference_counts_calendar_days() {
    let t = fixed(2023, 3, 1);
    assert_eq!(DateOption::new(b"date=2023-02-25", t).days_from_now, -4);
    assert_eq!(DateOption::new(b"date=2023-03-15", t).days_from_now, 14);
    // 2024 is a leap year, 2023 is not.
    let feb28_leap = fixed(2024, 2, 28);
    assert_eq!(DateOption::new(b"date=2024-03-01", feb28_leap).days_from_now, 2);
    let feb28 = fixed(2023, 2, 28);
    assert_eq!(DateOption::new(b"date=2023-03-01", feb28).days_from_now, 1);
    // Across a year end.
    let nye = fixed(2022, 12, 31);
    assert_eq!(DateOption::new(b"date=2023-01-01", nye).days_from_now, 1);
}

#[test]
fn date_string_is_zero_padded() {
    let d = fixed(987, 6, 5);
    assert_eq!(d.date_string(), b"0987-06-05".to_vec());
}

#[test]
fn from_ymd_rejects_impossible_dates() {
    assert!(Date::from_ymd(2023, 2, 29).is_none());
    assert!(Date::from_ymd(2024, 2, 29).is_some());
    assert!(Date::from_ymd(2023, 0, 1).is_none());
    assert!(Date::from_ymd(2023, 13, 1).is_none());
    assert!(Date::from_ymd(-1, 1, 1).is_none());
    assert!(Date::from_ymd(10000, 1, 1).is_none());
}

#[test]
fn timestamp_resolves_to_utc_date() {
    let d = weather_cli::date::date_from_timestamp(0).unwrap();
    assert_eq!(d, fixed(1970, 1, 1));
    let d = weather_cli::date::date_from_timestamp(86399).unwrap();
    assert_eq!(d, fixed(1970, 1, 1));
    let d = weather_cli::date::date_from_timestamp(86400).unwrap();
    assert_eq!(d, fixed(1970, 1, 2));
    // Cross-check an arbitrary modern timestamp against chrono.
    let ts = 1677283200i64;
    let expected = chrono::DateTime::from_timestamp(ts, 0).unwrap().date_naive();
    assert_eq!(weather_cli::date::date_from_timestamp(ts).unwrap(), lib_date(expected));
    // A timestamp before year 0 or after year 9999 has no date here.
    assert!(weather_cli::date::date_from_timestamp(-62167219201).is_none());
    assert!(weather_cli::date::date_from_timestamp(i64::MAX).is_none());
}
