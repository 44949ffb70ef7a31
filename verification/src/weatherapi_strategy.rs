use vstd::prelude::*;

verus! {

use vstd::slice::slice_to_vec;
use vstd::string::StringSliceAdditionalSpecFns;
use crate::date::Date;
use crate::date::DateOption;
use crate::date::spec_date_str;
use crate::date::spec_day_number;
use crate::date::spec_resolve_date;
use crate::date::spec_valid_date;
use crate::json::JVal;
use crate::json::Json;
use crate::json::get_arr;
use crate::json::get_obj;
use crate::json::get_str;
use crate::json::get_num;
use crate::json::json_view;
use crate::json::json_view_arr;
use crate::json::lemma_json_view_arr;
use crate::json::parse_json;
use crate::json::spec_get_arr;
use crate::json::spec_get_num;
use crate::json::spec_get_obj;
use crate::json::spec_get_str;
use crate::json::spec_parse_json;
use crate::urlenc::push_dec_u64;
use crate::urlenc::spec_dec_str;
use crate::urlenc::spec_urlencode;
use crate::urlenc::urlencode_into;
use crate::util::append_bytes;
use crate::weather_service::ForecastResponseData;
use crate::weather_service::ForecastView;
use crate::weather_service::ParseError;
use crate::weather_service::QueryError;

/// The WeatherApi-style strategy: three endpoints split the time line,
/// and the payload carries per-day records under `forecast.forecastday`.
pub struct WeatherApiStrategy;

/// The endpoint a day-offset routes to: past days to `history`, the
/// next fortnight to `forecast`, any farther future day to `future`.
/// Unlike the OpenWeather window, nothing is rejected upward: an
/// arbitrarily far future date routes to `future`; that asymmetry
/// mirrors the upstream services.
pub open spec fn spec_wa_method(days: int) -> Seq<u8> {
    if days < 0 {
        "history.json".spec_bytes()
    } else if days <= 13 {
        "forecast.json".spec_bytes()
    } else {
        "future.json".spec_bytes()
    }
}

/// The date parameter: the forecast endpoint takes a day count, the
/// other two the resolved date itself.
pub open spec fn spec_wa_date_param(date: Date, days: int) -> Seq<u8> {
    if 0 <= days <= 13 {
        "days=".spec_bytes() + spec_dec_str(days + 1)
    } else {
        "dt=".spec_bytes() + spec_date_str(date)
    }
}

/// The full query URL for an address, a resolved date and a key, with
/// the key and address form-urlencoded.
pub open spec fn spec_wa_query(address: Seq<u8>, date: Date, days: int, key: Seq<u8>) -> Seq<u8> {
    "https://api.weatherapi.com/v1/".spec_bytes() + spec_wa_method(days) + "?".spec_bytes()
        + spec_wa_date_param(date, days) + "&key=".spec_bytes() + spec_urlencode(key)
        + "&q=".spec_bytes() + spec_urlencode(address)
}

/// A request in the making: the address asked about and the resolved
/// date it is asked for.
pub struct WeatherRequest {
    pub address: Vec<u8>,
    pub date_option: DateOption,
}

impl WeatherRequest {
    pub fn new(address: &[u8], date_option: DateOption) -> (r: WeatherRequest)
        ensures
            r.address@ == address@,
            r.date_option == date_option,
    {
        WeatherRequest { address: slice_to_vec(address), date_option }
    }

    /// The endpoint file the resolved day-offset routes to.
    pub fn forecast_method(&self) -> (r: Vec<u8>)
        ensures
            r@ == spec_wa_method(self.date_option.days_from_now as int),
    {
        if self.date_option.days_from_now < 0 {
            slice_to_vec("history.json".as_bytes())
        } else if self.date_option.days_from_now <= 13 {
            slice_to_vec("forecast.json".as_bytes())
        } else {
            slice_to_vec("future.json".as_bytes())
        }
    }

    /// The date parameter of the query.
    pub fn set_date_option(&self) -> (r: Vec<u8>)
        requires
            spec_valid_date(self.date_option.date),
        ensures
            r@ == spec_wa_date_param(
                self.date_option.date,
                self.date_option.days_from_now as int,
            ),
    {
        let days = self.date_option.days_from_now;
        if 0 <= days && days <= 13 {
            let mut v = slice_to_vec("days=".as_bytes());
            push_dec_u64(&mut v, (days + 1) as u64);
            v
        } else {
            let mut v = slice_to_vec("dt=".as_bytes());
            let ds = self.date_option.to_string();
            append_bytes(&mut v, ds.as_slice());
            v
        }
    }

    /// The full query URL. Every resolved date is accepted: this
    /// provider rejects no day-offset.
    pub fn query(&self, api_key: &[u8]) -> (r: Result<Vec<u8>, QueryError>)
        requires
            spec_valid_date(self.date_option.date),
        ensures
            r matches Ok(q) && q@ == spec_wa_query(
                self.address@,
                self.date_option.date,
                self.date_option.days_from_now as int,
                api_key@,
            ),
    {
        let mut v = slice_to_vec("https://api.weatherapi.com/v1/".as_bytes());
        let m = self.forecast_method();
        append_bytes(&mut v, m.as_slice());
        append_bytes(&mut v, "?".as_bytes());
        let dp = self.set_date_option();
        append_bytes(&mut v, dp.as_slice());
        append_bytes(&mut v, "&key=".as_bytes());
        urlencode_into(&mut v, api_key);
        append_bytes(&mut v, "&q=".as_bytes());
        urlencode_into(&mut v, self.address.as_slice());
        proof {
            assert(v@ =~= spec_wa_query(
                self.address@,
                self.date_option.date,
                self.date_option.days_from_now as int,
                api_key@,
            ));
        }
        Ok(v)
    }
}

/// The location line of the canonical record: name, region and
/// country joined by a comma, the region omitted when the payload
/// carries none (a region of any other shape counts as absent).
pub open spec fn spec_wa_location(loc: Seq<(Seq<u8>, JVal)>) -> Option<Seq<u8>> {
    match (spec_get_str(loc, "name".spec_bytes()), spec_get_str(loc, "country".spec_bytes())) {
        (Some(name), Some(country)) => match spec_get_str(loc, "region".spec_bytes()) {
            Some(region) => Some(
                name + ", ".spec_bytes() + region + ", ".spec_bytes() + country,
            ),
            None => Some(name + ", ".spec_bytes() + country),
        },
        _ => None,
    }
}

/// The condition text of a day record; anything short of a condition
/// object with a text string degrades to the empty string.
pub open spec fn spec_wa_condition(dayf: Seq<(Seq<u8>, JVal)>) -> Seq<u8> {
    match spec_get_obj(dayf, "condition".spec_bytes()) {
        Some(c) => match spec_get_str(c, "text".spec_bytes()) {
            Some(t) => t,
            None => Seq::empty(),
        },
        None => Seq::empty(),
    }
}

/// The canonical record a location block and one forecast-day entry
/// denote; a missing or ill-typed required field is a malformed
/// payload.
pub open spec fn spec_wa_day(loc: Seq<(Seq<u8>, JVal)>, fd: JVal) -> Result<
    ForecastView,
    ParseError,
> {
    match fd {
        JVal::Obj(fdf) => match (
            spec_get_str(fdf, "date".spec_bytes()),
            spec_get_obj(fdf, "day".spec_bytes()),
        ) {
            (Some(date), Some(dayf)) => match (
                spec_get_num(dayf, "maxtemp_c".spec_bytes()),
                spec_get_num(dayf, "mintemp_c".spec_bytes()),
                spec_get_num(dayf, "avgtemp_c".spec_bytes()),
                spec_get_num(dayf, "maxwind_kph".spec_bytes()),
                spec_get_num(dayf, "avghumidity".spec_bytes()),
                spec_wa_location(loc),
            ) {
                (Some(maxt), Some(mint), Some(avgt), Some(wind), Some(hum), Some(location)) => Ok(
                    ForecastView {
                        location,
                        date,
                        max_temp: maxt,
                        min_temp: mint,
                        avg_temp: avgt,
                        maxwind_kph: wind,
                        avghumidity: hum,
                        condition: spec_wa_condition(dayf),
                    },
                ),
                _ => Err(ParseError::MalformedPayload),
            },
            _ => Err(ParseError::MalformedPayload),
        },
        _ => Err(ParseError::MalformedPayload),
    }
}

/// The canonical record a whole WeatherApi payload denotes: the last
/// entry of the day list is the requested day; an empty list is the
/// recoverable `NoForecastAvailable`, never an abort.
pub open spec fn spec_wa_forecast(v: JVal) -> Result<ForecastView, ParseError> {
    match v {
        JVal::Obj(top) => match (
            spec_get_obj(top, "location".spec_bytes()),
            spec_get_obj(top, "forecast".spec_bytes()),
        ) {
            (Some(loc), Some(fc)) => match spec_get_arr(fc, "forecastday".spec_bytes()) {
                Some(days) => if days.len() == 0 {
                    Err(ParseError::NoForecastAvailable)
                } else {
                    spec_wa_day(loc, days.last())
                },
                None => Err(ParseError::MalformedPayload),
            },
            _ => Err(ParseError::MalformedPayload),
        },
        _ => Err(ParseError::MalformedPayload),
    }
}

/// What a raw WeatherApi body yields: a body that is no JSON document
/// is malformed; otherwise the payload decides.
pub open spec fn spec_wa_response(body: Seq<u8>) -> Result<ForecastView, ParseError> {
    match spec_parse_json(body) {
        Some(v) => spec_wa_forecast(v),
        None => Err(ParseError::MalformedPayload),
    }
}

/// A payload whose day list is empty yields the recoverable
/// `NoForecastAvailable`, whatever else it holds — never a malformed
/// verdict and, the parser being total, never an abort.
pub proof fn lemma_empty_day_list_recoverable(v: JVal)
    requires
        ({
            &&& v matches JVal::Obj(top)
            &&& spec_get_obj(top, "location".spec_bytes()) is Some
            &&& spec_get_obj(top, "forecast".spec_bytes()) matches Some(fc)
            &&& spec_get_arr(fc, "forecastday".spec_bytes()) == Some(Seq::<JVal>::empty())
        }),
    ensures
        spec_wa_forecast(v) == Err::<ForecastView, ParseError>(ParseError::NoForecastAvailable),
{
}

fn compose_location(loc: &Vec<(Vec<u8>, Json)>) -> (r: Option<Vec<u8>>)
    ensures
        match r {
            Some(v) => spec_wa_location(crate::json::json_view_obj(loc@)) == Some(v@),
            None => spec_wa_location(crate::json::json_view_obj(loc@)) is None,
        },
{
    let name = match get_str(loc, "name".as_bytes()) {
        Some(n) => n,
        None => {
            return None;
        },
    };
    let country = match get_str(loc, "country".as_bytes()) {
        Some(c) => c,
        None => {
            return None;
        },
    };
    let mut v = slice_to_vec(name.as_slice());
    append_bytes(&mut v, ", ".as_bytes());
    match get_str(loc, "region".as_bytes()) {
        Some(region) => {
            append_bytes(&mut v, region.as_slice());
            append_bytes(&mut v, ", ".as_bytes());
        },
        None => {},
    }
    append_bytes(&mut v, country.as_slice());
    Some(v)
}

fn extract_condition(dayf: &Vec<(Vec<u8>, Json)>) -> (r: Vec<u8>)
    ensures
        r@ == spec_wa_condition(crate::json::json_view_obj(dayf@)),
{
    match get_obj(dayf, "condition".as_bytes()) {
        Some(c) => match get_str(c, "text".as_bytes()) {
            Some(t) => slice_to_vec(t.as_slice()),
            None => Vec::new(),
        },
        None => Vec::new(),
    }
}

/// Normalizes a parsed WeatherApi payload into the canonical record.
pub fn build_forecast(data: &Json) -> (r: Result<ForecastResponseData, ParseError>)
    ensures
        match r {
            Ok(f) => spec_wa_forecast(json_view(*data)) == Ok::<ForecastView, ParseError>(f@),
            Err(e) => spec_wa_forecast(json_view(*data)) == Err::<ForecastView, ParseError>(e),
        },
{
    let top = match data {
        Json::Obj(top) => top,
        _ => {
            return Err(ParseError::MalformedPayload);
        },
    };
    let loc = match get_obj(top, "location".as_bytes()) {
        Some(l) => l,
        None => {
            return Err(ParseError::MalformedPayload);
        },
    };
    let fc = match get_obj(top, "forecast".as_bytes()) {
        Some(f) => f,
        None => {
            return Err(ParseError::MalformedPayload);
        },
    };
    let days = match get_arr(fc, "forecastday".as_bytes()) {
        Some(d) => d,
        None => {
            return Err(ParseError::MalformedPayload);
        },
    };
    if days.len() == 0 {
        return Err(ParseError::NoForecastAvailable);
    }
    let fd = &days[days.len() - 1];
    proof {
        lemma_json_view_arr(days@);
        assert(json_view_arr(days@).last() == json_view(days@.last()));
    }
    let fdf = match fd {
        Json::Obj(fdf) => fdf,
        _ => {
            return Err(ParseError::MalformedPayload);
        },
    };
    let date = match get_str(fdf, "date".as_bytes()) {
        Some(d) => d,
        None => {
            return Err(ParseError::MalformedPayload);
        },
    };
    let dayf = match get_obj(fdf, "day".as_bytes()) {
        Some(d) => d,
        None => {
            return Err(ParseError::MalformedPayload);
        },
    };
    let maxt = match get_num(dayf, "maxtemp_c".as_bytes()) {
        Some(t) => t,
        None => {
            return Err(ParseError::MalformedPayload);
        },
    };
    let mint = match get_num(dayf, "mintemp_c".as_bytes()) {
        Some(t) => t,
        None => {
            return Err(ParseError::MalformedPayload);
        },
    };
    let avgt = match get_num(dayf, "avgtemp_c".as_bytes()) {
        Some(t) => t,
        None => {
            return Err(ParseError::MalformedPayload);
        },
    };
    let wind = match get_num(dayf, "maxwind_kph".as_bytes()) {
        Some(t) => t,
        None => {
            return Err(ParseError::MalformedPayload);
        },
    };
    let hum = match get_num(dayf, "avghumidity".as_bytes()) {
        Some(t) => t,
        None => {
            return Err(ParseError::MalformedPayload);
        },
    };
    let location = match compose_location(loc) {
        Some(l) => l,
        None => {
            return Err(ParseError::MalformedPayload);
        },
    };
    let condition = extract_condition(dayf);
    Ok(ForecastResponseData {
        location,
        date: slice_to_vec(date.as_slice()),
        max_temp: slice_to_vec(maxt.as_slice()),
        min_temp: slice_to_vec(mint.as_slice()),
        avg_temp: slice_to_vec(avgt.as_slice()),
        maxwind_kph: slice_to_vec(wind.as_slice()),
        avghumidity: slice_to_vec(hum.as_slice()),
        condition,
    })
}

impl WeatherApiStrategy {
    /// Builds the provider query for an address and a date
    /// expression, the expression resolved against the injected
    /// `today`. This provider accepts every resolved date.
    pub fn build_request(&self, address: &[u8], date: &[u8], today: Date, api_key: &[u8]) -> (r:
        Result<Vec<u8>, QueryError>)
        requires
            spec_valid_date(today),
        ensures
            r matches Ok(q) && q@ == spec_wa_query(
                address@,
                spec_resolve_date(date@, today),
                spec_day_number(spec_resolve_date(date@, today)) - spec_day_number(today),
                api_key@,
            ),
    {
        let d = DateOption::new(date, today);
        WeatherRequest::new(address, d).query(api_key)
    }

    /// Parses a raw provider body into the canonical record.
    pub fn build_response(&self, body: &[u8]) -> (r: Result<ForecastResponseData, ParseError>)
        ensures
            match r {
                Ok(f) => spec_wa_response(body@) == Ok::<ForecastView, ParseError>(f@),
                Err(e) => spec_wa_response(body@) == Err::<ForecastView, ParseError>(e),
            },
    {
        match parse_json(body) {
            Some(data) => build_forecast(&data),
            None => Err(ParseError::MalformedPayload),
        }
    }
}

} // verus!
