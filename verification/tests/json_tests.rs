use weather_cli::json::{parse_i64, parse_json, Json};

fn parse(s: &str) -> Option<Json> {
    parse_json(s.as_bytes())
}

#[test]
fn json_scalars_parse() {
    assert!(matches!(parse("null"), Some(Json::Null)));
    assert!(matches!(parse("true"), Some(Json::Bool(true))));
    assert!(matches!(parse("false"), Some(Json::Bool(false))));
    match parse("  -12.5e3  ") {
        Some(Json::Num(t)) => assert_eq!(t, b"-12.5e3".to_vec()),
        other => panic!("unexpected {other:?}"),
    }
    match parse(r#""hi there""#) {
        Some(Json::Str(t)) => assert_eq!(t, b"hi there".to_vec()),
        other => panic!("unexpected {other:?}"),
    }
}

#[test]
fn json_string_escapes_decode() {
    match parse(r#""a\"b\\c\/d\n\tAé""#) {
        Some(Json::Str(t)) => {
            assert_eq!(String::from_utf8(t).unwrap(), "a\"b\\c/d\n\tA\u{e9}");
        },
        other => panic!("unexpected {other:?}"),
    }
    // A surrogate pair decodes to one code point.
    match parse(r#""\ud83c\udf27""#) {
        Some(Json::Str(t)) => {
            assert_eq!(String::from_utf8(t).unwrap(), "\u{1f327}");
        },
        other => panic!("unexpected {other:?}"),
    }
    // A lone surrogate is refused.
    assert!(parse(r#""\ud83c""#).is_none());
}

#[test]
fn json_structures_parse() {
    match parse(r#"{"a": [1, 2], "b": {"c": "d"}}"#) {
        Some(Json::Obj(fields)) => {
            assert_eq!(fields.len(), 2);
            assert_eq!(fields[0].0, b"a".to_vec());
            match &fields[0].1 {
                Json::Arr(items) => assert_eq!(items.len(), 2),
                other => panic!("unexpected {other:?}"),
            }
        },
        other => panic!("unexpected {other:?}"),
    }
    assert!(matches!(parse("[]"), Some(Json::Arr(v)) if v.is_empty()));
    assert!(matches!(parse("{}"), Some(Json::Obj(v)) if v.is_empty()));
}

#[test]
fn json_malformed_bodies_are_refused() {
    for body in [
        "", "nul", "tru", "{", "[1,", r#"{"a" 1}"#, r#"{"a": 1"#, "01", "1 2", "[1,]",
        "{,}", r#"{"a": 1,}"#, "\"unterminated", "\u{7}", "[1] trailing",
    ] {
        assert!(parse(body).is_none(), "accepted: {body:?}");
    }
}

#[test]
fn json_leading_zero_number_is_refused() {
    assert!(parse("0123").is_none());
    assert!(matches!(parse("0"), Some(Json::Num(t)) if t == b"0".to_vec()));
    assert!(matches!(parse("-0"), Some(Json::Num(t)) if t == b"-0".to_vec()));
}

#[test]
fn integer_tokens_read_back_exactly() {
    assert_eq!(parse_i64(b"0"), Some(0));
    assert_eq!(parse_i64(b"-1"), Some(-1));
    assert_eq!(parse_i64(b"1677283200"), Some(1677283200));
    assert_eq!(parse_i64(b"9223372036854775807"), Some(i64::MAX));
    assert_eq!(parse_i64(b"-9223372036854775808"), Some(i64::MIN));
    assert_eq!(parse_i64(b"9223372036854775808"), None);
    assert_eq!(parse_i64(b"-9223372036854775809"), None);
    assert_eq!(parse_i64(b"99999999999999999999999"), None);
    assert_eq!(parse_i64(b"1.5"), None);
    assert_eq!(parse_i64(b"1e3"), None);
    assert_eq!(parse_i64(b"01"), None);
    assert_eq!(parse_i64(b""), None);
    assert_eq!(parse_i64(b"-"), None);
}

#[test]
fn json_first_duplicate_key_wins() {
    // Field lookup takes the first occurrence; later duplicates are
    // shadowed rather than refused.
    let body = r#"{"location": {"name": "Kyiv", "name": "Lviv", "region": "R",
                   "country": "UA"},
                   "forecast": {"forecastday": [
                     {"date": "2023-02-25", "day": {"maxtemp_c": 1.0, "mintemp_c": 0.0,
                       "avgtemp_c": 0.5, "maxwind_kph": 1.0, "avghumidity": 50.0,
                       "condition": {"text": "x"}}}]}}"#;
    let r = weather_cli::weatherapi_strategy::WeatherApiStrategy
        .build_response(body.as_bytes())
        .unwrap();
    assert_eq!(r.location, b"Kyiv, R, UA".to_vec());
}
