use vstd::prelude::*;

verus! {

use vstd::string::StringSliceAdditionalSpecFns;
use crate::date::Date;
use crate::date::spec_day_number;
use crate::date::spec_resolve_date;
use crate::date::spec_valid_date;
use crate::open_weather_strategy::OpenWeatherStrategy;
use crate::open_weather_strategy::spec_ow_available;
use crate::open_weather_strategy::spec_ow_query;
use crate::open_weather_strategy::spec_ow_response;
use crate::weatherapi_strategy::WeatherApiStrategy;
use crate::weatherapi_strategy::spec_wa_query;
use crate::weatherapi_strategy::spec_wa_response;

/// The closed set of forecast providers. `UnknownService` and
/// `MissingService` are the sentinel outcomes of name resolution:
/// they never reach a strategy, dispatch rejects them first.
#[derive(Clone, Copy, PartialEq, Eq, Structural, Debug)]
pub enum WeatherService {
    OpenWeather,
    WeatherApi,
    UnknownService,
    MissingService,
}

/// Why a query could not be built.
#[derive(Clone, Copy, PartialEq, Eq, Structural, Debug)]
pub enum QueryError {
    DateOutOfRange,
}

/// Why a response body yielded no forecast record.
#[derive(Clone, Copy, PartialEq, Eq, Structural, Debug)]
pub enum ParseError {
    NoForecastAvailable,
    MalformedPayload,
}

/// The single failure channel a forecast request reports through.
#[derive(Clone, Copy, PartialEq, Eq, Structural, Debug)]
pub enum ForecastError {
    UnknownProvider,
    MissingProvider,
    RequestRejected(QueryError),
    TransportFailure,
    InvalidResponse(ParseError),
}

/// The canonical, provider-independent forecast record. The numeric
/// readings keep the literal spelling the provider's payload used;
/// rendering layers may read them as decimal numbers.
#[derive(Clone, PartialEq, Eq, Debug)]
pub struct ForecastResponseData {
    pub location: Vec<u8>,
    pub date: Vec<u8>,
    pub max_temp: Vec<u8>,
    pub min_temp: Vec<u8>,
    pub avg_temp: Vec<u8>,
    pub maxwind_kph: Vec<u8>,
    pub avghumidity: Vec<u8>,
    pub condition: Vec<u8>,
}

/// The mathematical shadow of `ForecastResponseData`.
pub struct ForecastView {
    pub location: Seq<u8>,
    pub date: Seq<u8>,
    pub max_temp: Seq<u8>,
    pub min_temp: Seq<u8>,
    pub avg_temp: Seq<u8>,
    pub maxwind_kph: Seq<u8>,
    pub avghumidity: Seq<u8>,
    pub condition: Seq<u8>,
}

impl View for ForecastResponseData {
    type V = ForecastView;

    open spec fn view(&self) -> ForecastView {
        ForecastView {
            location: self.location@,
            date: self.date@,
            max_temp: self.max_temp@,
            min_temp: self.min_temp@,
            avg_temp: self.avg_temp@,
            maxwind_kph: self.maxwind_kph@,
            avghumidity: self.avghumidity@,
            condition: self.condition@,
        }
    }
}

pub open spec fn spec_lower_byte(b: u8) -> u8 {
    if 65 <= b <= 90 {
        (b + 32) as u8
    } else {
        b
    }
}

/// ASCII lowercasing, byte for byte.
pub open spec fn spec_ascii_lower(s: Seq<u8>) -> Seq<u8> {
    s.map_values(|b: u8| spec_lower_byte(b))
}

/// Lowercases the ASCII letters of a byte run.
pub fn ascii_lower(s: &[u8]) -> (r: Vec<u8>)
    ensures
        r@ == spec_ascii_lower(s@),
{
    let mut v: Vec<u8> = Vec::new();
    let mut k: usize = 0;
    while k < s.len()
        invariant
            0 <= k <= s@.len(),
            v@ == spec_ascii_lower(s@.take(k as int)),
        decreases s@.len() - k,
    {
        let b = s[k];
        if 65 <= b && b <= 90 {
            v.push(b + 32);
        } else {
            v.push(b);
        }
        k = k + 1;
        proof {
            assert(v@ =~= spec_ascii_lower(s@.take(k as int)));
        }
    }
    proof {
        assert(s@.take(s@.len() as int) =~= s@);
    }
    v
}

/// How a configured provider name resolves: the two known names match
/// without regard to ASCII case, an absent or empty name is missing,
/// anything else is unknown.
pub open spec fn spec_service_from_name(name: Option<Seq<u8>>) -> WeatherService {
    match name {
        None => WeatherService::MissingService,
        Some(n) => if spec_ascii_lower(n) == "openweather".spec_bytes() {
            WeatherService::OpenWeather
        } else if spec_ascii_lower(n) == "weatherapi".spec_bytes() {
            WeatherService::WeatherApi
        } else if n.len() == 0 {
            WeatherService::MissingService
        } else {
            WeatherService::UnknownService
        },
    }
}

/// What building the query for a selected service yields: the URL to
/// fetch, or the failure that forbids any network activity — an
/// unresolved provider, or a date outside the OpenWeather window.
pub open spec fn spec_forecast_query(
    service: WeatherService,
    address: Seq<u8>,
    date_expr: Seq<u8>,
    today: Date,
    key: Seq<u8>,
) -> Result<Seq<u8>, ForecastError> {
    let resolved = spec_resolve_date(date_expr, today);
    let days = spec_day_number(resolved) - spec_day_number(today);
    match service {
        WeatherService::OpenWeather => if spec_ow_available(days) {
            Ok(spec_ow_query(address, days, key))
        } else {
            Err(ForecastError::RequestRejected(QueryError::DateOutOfRange))
        },
        WeatherService::WeatherApi => Ok(spec_wa_query(address, resolved, days, key)),
        WeatherService::UnknownService => Err(ForecastError::UnknownProvider),
        WeatherService::MissingService => Err(ForecastError::MissingProvider),
    }
}

/// Builds the query URL for one forecast request, or reports the
/// failure that forbids making one.
pub fn build_forecast_query(
    service: &WeatherService,
    address: &[u8],
    date_expr: &[u8],
    today: Date,
    api_key: &[u8],
) -> (r: Result<Vec<u8>, ForecastError>)
    requires
        spec_valid_date(today),
    ensures
        match r {
            Ok(q) => spec_forecast_query(*service, address@, date_expr@, today, api_key@)
                == Ok::<Seq<u8>, ForecastError>(q@),
            Err(e) => spec_forecast_query(*service, address@, date_expr@, today, api_key@)
                == Err::<Seq<u8>, ForecastError>(e),
        },
{
    match service {
        WeatherService::OpenWeather => match OpenWeatherStrategy.build_request(
            address,
            date_expr,
            today,
            api_key,
        ) {
            Ok(q) => Ok(q),
            Err(e) => Err(ForecastError::RequestRejected(e)),
        },
        WeatherService::WeatherApi => match WeatherApiStrategy.build_request(
            address,
            date_expr,
            today,
            api_key,
        ) {
            Ok(q) => Ok(q),
            Err(e) => Err(ForecastError::RequestRejected(e)),
        },
        WeatherService::UnknownService => Err(ForecastError::UnknownProvider),
        WeatherService::MissingService => Err(ForecastError::MissingProvider),
    }
}

/// What one completed forecast exchange yields, given the outcome of
/// the transport call on the built query: selection failures and
/// rejected dates come first and forbid any network use; a failed
/// transport or a non-success status is a transport failure; an
/// accepted body is parsed by the selected strategy, whose failures
/// surface as `InvalidResponse`.
pub open spec fn spec_weather_forecast(
    name: Option<Seq<u8>>,
    address: Seq<u8>,
    date_expr: Seq<u8>,
    today: Date,
    key: Seq<u8>,
    transport: Option<(u16, Seq<u8>)>,
) -> Result<ForecastView, ForecastError> {
    match spec_service_from_name(name) {
        WeatherService::UnknownService => Err(ForecastError::UnknownProvider),
        WeatherService::MissingService => Err(ForecastError::MissingProvider),
        WeatherService::OpenWeather => {
            let days = spec_day_number(spec_resolve_date(date_expr, today)) - spec_day_number(
                today,
            );
            if !spec_ow_available(days) {
                Err(ForecastError::RequestRejected(QueryError::DateOutOfRange))
            } else {
                match transport {
                    None => Err(ForecastError::TransportFailure),
                    Some((status, body)) => if !(200 <= status <= 299) {
                        Err(ForecastError::TransportFailure)
                    } else {
                        match spec_ow_response(body) {
                            Ok(f) => Ok(f),
                            Err(e) => Err(ForecastError::InvalidResponse(e)),
                        }
                    },
                }
            }
        },
        WeatherService::WeatherApi => match transport {
            None => Err(ForecastError::TransportFailure),
            Some((status, body)) => if !(200 <= status <= 299) {
                Err(ForecastError::TransportFailure)
            } else {
                match spec_wa_response(body) {
                    Ok(f) => Ok(f),
                    Err(e) => Err(ForecastError::InvalidResponse(e)),
                }
            },
        },
    }
}

/// Drives one forecast request to its verdict. The transport call
/// itself is the caller's: it fetches the URL `build_forecast_query`
/// gives and hands the outcome in — `None` for a transport-level
/// failure, otherwise the status and raw body.
pub fn weather_forecast(
    provider_name: Option<&[u8]>,
    address: &[u8],
    date_expr: &[u8],
    today: Date,
    api_key: &[u8],
    transport: Option<(u16, Vec<u8>)>,
) -> (r: Result<ForecastResponseData, ForecastError>)
    requires
        spec_valid_date(today),
    ensures
        ({
            let name = match provider_name {
                Some(n) => Some(n@),
                None => None,
            };
            let tview = match transport {
                Some(p) => Some((p.0, p.1@)),
                None => None,
            };
            match r {
                Ok(f) => spec_weather_forecast(name, address@, date_expr@, today, api_key@, tview)
                    == Ok::<ForecastView, ForecastError>(f@),
                Err(e) => spec_weather_forecast(name, address@, date_expr@, today, api_key@, tview)
                    == Err::<ForecastView, ForecastError>(e),
            }
        }),
{
    match WeatherService::from_name(provider_name) {
        WeatherService::UnknownService => Err(ForecastError::UnknownProvider),
        WeatherService::MissingService => Err(ForecastError::MissingProvider),
        WeatherService::OpenWeather => {
            let d = crate::date::DateOption::new(date_expr, today);
            if !(0 <= d.days_from_now && d.days_from_now <= 16) {
                return Err(ForecastError::RequestRejected(QueryError::DateOutOfRange));
            }
            match transport {
                None => Err(ForecastError::TransportFailure),
                Some(p) => {
                    let status = p.0;
                    if !(200 <= status && status <= 299) {
                        return Err(ForecastError::TransportFailure);
                    }
                    match OpenWeatherStrategy.build_response(p.1.as_slice()) {
                        Ok(f) => Ok(f),
                        Err(e) => Err(ForecastError::InvalidResponse(e)),
                    }
                },
            }
        },
        WeatherService::WeatherApi => match transport {
            None => Err(ForecastError::TransportFailure),
            Some(p) => {
                let status = p.0;
                if !(200 <= status && status <= 299) {
                    return Err(ForecastError::TransportFailure);
                }
                match WeatherApiStrategy.build_response(p.1.as_slice()) {
                    Ok(f) => Ok(f),
                    Err(e) => Err(ForecastError::InvalidResponse(e)),
                }
            },
        },
    }
}

impl WeatherService {
    /// Resolves a configured provider name.
    pub fn from_name(name: Option<&[u8]>) -> (r: WeatherService)
        ensures
            r == spec_service_from_name(
                match name {
                    Some(n) => Some(n@),
                    None => None,
                },
            ),
    {
        match name {
            None => WeatherService::MissingService,
            Some(n) => {
                let low = ascii_lower(n);
                if crate::util::bytes_eq(low.as_slice(), "openweather".as_bytes()) {
                    WeatherService::OpenWeather
                } else if crate::util::bytes_eq(low.as_slice(), "weatherapi".as_bytes()) {
                    WeatherService::WeatherApi
                } else if n.len() == 0 {
                    WeatherService::MissingService
                } else {
                    WeatherService::UnknownService
                }
            },
        }
    }
}

} // verus!
