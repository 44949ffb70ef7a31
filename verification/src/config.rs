use vstd::prelude::*;

verus! {

use vstd::slice::slice_to_vec;
use vstd::string::StringExecFns;
use vstd::string::StringSliceAdditionalSpecFns;
use crate::weather_service::WeatherService;
use crate::weather_service::spec_ascii_lower;
use crate::weather_service::spec_service_from_name;

/// Why a provider name could not be stored.
#[derive(Clone, Copy, PartialEq, Eq, Structural, Debug)]
pub enum ConfigError {
    UnknownProvider,
    MissingProvider,
}

/// The persisted configuration record: the name of the active
/// provider. Reading and writing the file that holds it is the
/// caller's business; this type only carries the value.
#[derive(Clone, PartialEq, Eq, Debug)]
pub struct WeatherCliConfig {
    pub provider: Vec<u8>,
}

impl Default for WeatherCliConfig {
    /// The record that stands in for an absent or unreadable
    /// configuration file.
    fn default() -> (r: WeatherCliConfig)
        ensures
            r.provider@ == "openweather".spec_bytes(),
    {
        WeatherCliConfig { provider: slice_to_vec("openweather".as_bytes()) }
    }
}

/// The canonical spelled name of a selectable provider; the sentinel
/// states have none.
pub open spec fn spec_provider_name(p: WeatherService) -> Option<Seq<u8>> {
    match p {
        WeatherService::OpenWeather => Some("openweather".spec_bytes()),
        WeatherService::WeatherApi => Some("weatherapi".spec_bytes()),
        _ => None,
    }
}

/// Stores the provider a name selects, or reports why the name
/// selects none; a refused name leaves the stored record as it was.
pub fn set_provider(config: &mut WeatherCliConfig, provider: Option<&[u8]>) -> (r: Result<
    (),
    ConfigError,
>)
    ensures
        match spec_service_from_name(
            match provider {
                Some(n) => Some(n@),
                None => None,
            },
        ) {
            WeatherService::OpenWeather => r is Ok && final(config).provider@
                == "openweather".spec_bytes(),
            WeatherService::WeatherApi => r is Ok && final(config).provider@
                == "weatherapi".spec_bytes(),
            WeatherService::UnknownService => r == Err::<(), ConfigError>(
                ConfigError::UnknownProvider,
            ) && *final(config) == *old(config),
            WeatherService::MissingService => r == Err::<(), ConfigError>(
                ConfigError::MissingProvider,
            ) && *final(config) == *old(config),
        },
{
    match WeatherService::from_name(provider) {
        WeatherService::OpenWeather => {
            config.provider = slice_to_vec("openweather".as_bytes());
            Ok(())
        },
        WeatherService::WeatherApi => {
            config.provider = slice_to_vec("weatherapi".as_bytes());
            Ok(())
        },
        WeatherService::UnknownService => Err(ConfigError::UnknownProvider),
        WeatherService::MissingService => Err(ConfigError::MissingProvider),
    }
}

/// The provider the stored record selects.
pub fn get_provider(config: &WeatherCliConfig) -> (r: WeatherService)
    ensures
        r == spec_service_from_name(Some(config.provider@)),
{
    WeatherService::from_name(Some(config.provider.as_slice()))
}

/// The spelled name of a provider, for storing; the sentinel states
/// have none and are never written.
pub fn maybe_provider_to_string(provider: &Option<WeatherService>) -> (r: Option<String>)
    ensures
        match *provider {
            Some(WeatherService::OpenWeather) => r matches Some(s) && s@ == "openweather"@,
            Some(WeatherService::WeatherApi) => r matches Some(s) && s@ == "weatherapi"@,
            _ => r is None,
        },
{
    match provider {
        Some(WeatherService::OpenWeather) => Some(String::from_str("openweather")),
        Some(WeatherService::WeatherApi) => Some(String::from_str("weatherapi")),
        Some(_) => None,
        None => None,
    }
}

/// Configuration round trip: a canonical provider name, stored and
/// read back, resolves to the very provider it names, the resolution
/// being indifferent to ASCII case.
pub proof fn lemma_provider_round_trip(p: WeatherService)
    requires
        p == WeatherService::OpenWeather || p == WeatherService::WeatherApi,
    ensures
        spec_service_from_name(spec_provider_name(p)) == p,
{
    reveal_strlit("openweather");
    reveal_strlit("weatherapi");
    broadcast use vstd::string::is_ascii_spec_bytes;

    assert("openweather".is_ascii());
    assert("weatherapi".is_ascii());
    let ow = "openweather".spec_bytes();
    let wa = "weatherapi".spec_bytes();
    assert(ow.len() == 11);
    assert(wa.len() == 10);
    assert(spec_ascii_lower(ow) =~= ow);
    assert(spec_ascii_lower(wa) =~= wa);
}

} // verus!
