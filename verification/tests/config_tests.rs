use weather_cli::config::{
    get_provider, maybe_provider_to_string, set_provider, ConfigError, WeatherCliConfig,
};
use weather_cli::weather_service::WeatherService;

#[test]
fn configure_weatherapi_round_trip() {
    let mut config = WeatherCliConfig::default();
    assert_eq!(set_provider(&mut config, Some(b"WeatherApi")), Ok(()));
    assert_eq!(get_provider(&config), WeatherService::WeatherApi);
}

#[test]
fn configure_openweather_round_trip() {
    let mut config = WeatherCliConfig {
        provider: b"weatherapi".to_vec(),
    };
    assert_eq!(set_provider(&mut config, Some(b"OPENWEATHER")), Ok(()));
    assert_eq!(get_provider(&config), WeatherService::OpenWeather);
}

#[test]
fn default_config_selects_openweather() {
    let config = WeatherCliConfig::default();
    assert_eq!(config.provider, b"openweather".to_vec());
    assert_eq!(get_provider(&config), WeatherService::OpenWeather);
}

#[test]
fn unknown_provider_is_refused_without_change() {
    let mut config = WeatherCliConfig::default();
    let before = config.clone();
    assert_eq!(
        set_provider(&mut config, Some(b"accuweather")),
        Err(ConfigError::UnknownProvider)
    );
    assert_eq!(config, before);
}

#[test]
fn missing_provider_is_refused_without_change() {
    let mut config = WeatherCliConfig::default();
    let before = config.clone();
    assert_eq!(set_provider(&mut config, None), Err(ConfigError::MissingProvider));
    assert_eq!(config, before);
    assert_eq!(set_provider(&mut config, Some(b"")), Err(ConfigError::MissingProvider));
    assert_eq!(config, before);
}

#[test]
fn provider_names_spell_as_stored() {
    assert_eq!(
        maybe_provider_to_string(&Some(WeatherService::OpenWeather)),
        Some("openweather".to_string())
    );
    assert_eq!(
        maybe_provider_to_string(&Some(WeatherService::WeatherApi)),
        Some("weatherapi".to_string())
    );
    assert_eq!(maybe_provider_to_string(&Some(WeatherService::UnknownService)), None);
    assert_eq!(maybe_provider_to_string(&Some(WeatherService::MissingService)), None);
    assert_eq!(maybe_provider_to_string(&None), None);
}

#[test]
fn name_resolution_ignores_ascii_case() {
    assert_eq!(
        WeatherService::from_name(Some(b"WeAtHeRaPi")),
        WeatherService::WeatherApi
    );
    assert_eq!(
        WeatherService::from_name(Some(b"OpenWeather")),
        WeatherService::OpenWeather
    );
    assert_eq!(
        WeatherService::from_name(Some(b"something else")),
        WeatherService::UnknownService
    );
    assert_eq!(WeatherService::from_name(None), WeatherService::MissingService);
}
