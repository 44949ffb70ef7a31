use vstd::prelude::*;

verus! {

use vstd::slice::slice_to_vec;
use vstd::string::StringSliceAdditionalSpecFns;
use crate::date::Date;
use crate::date::DateOption;
use crate::date::date_from_timestamp;
use crate::date::lemma_day_number_injective;
use crate::date::spec_date_of_day;
use crate::date::spec_date_str;
use crate::date::spec_day_number;
use crate::date::spec_max_day_number;
use crate::date::spec_resolve_date;
use crate::date::spec_timestamp_day;
use crate::date::spec_valid_date;
use crate::json::JVal;
use crate::json::Json;
use crate::json::get_arr;
use crate::json::get_num;
use crate::json::get_obj;
use crate::json::get_str;
use crate::json::json_view;
use crate::json::json_view_arr;
use crate::json::lemma_json_view_arr;
use crate::json::parse_i64;
use crate::json::parse_json;
use crate::json::spec_get_arr;
use crate::json::spec_get_num;
use crate::json::spec_get_obj;
use crate::json::spec_get_str;
use crate::json::spec_parse_i64;
use crate::json::spec_parse_json;
use crate::urlenc::push_dec_u64;
use crate::urlenc::spec_dec_str;
use crate::urlenc::spec_urlencode;
use crate::urlenc::urlencode_into;
use crate::util::append_bytes;
use crate::weather_service::ForecastResponseData;
use crate::weather_service::ForecastView;
use crate::weather_service::ParseError;
use crate::weather_service::QueryError;

/// The OpenWeather-style strategy: one daily-forecast endpoint with a
/// day count, and a payload that keys each day entry by a Unix
/// timestamp.
pub struct OpenWeatherStrategy;

/// The supported window: today through sixteen days ahead, nothing
/// in the past. A date outside it is rejected, never clamped.
pub open spec fn spec_ow_available(days: int) -> bool {
    0 <= days <= 16
}

/// The full query URL for an address, a day-offset inside the window
/// and a key, with the address and key form-urlencoded and the day
/// count one more than the offset.
pub open spec fn spec_ow_query(address: Seq<u8>, days: int, key: Seq<u8>) -> Seq<u8> {
    "https://api.openweathermap.org/data/2.5/forecast/daily?q=".spec_bytes() + spec_urlencode(
        address,
    ) + "&cnt=".spec_bytes() + spec_dec_str(days + 1) + "&units=metric&appid=".spec_bytes()
        + spec_urlencode(key)
}

/// A request in the making: the address asked about and the resolved
/// date it is asked for.
pub struct WeatherRequest {
    pub address: Vec<u8>,
    pub date_option: DateOption,
}

impl WeatherRequest {
    pub fn new(address: &[u8], date_option: DateOption) -> (r: WeatherRequest)
        ensures
            r.address@ == address@,
            r.date_option == date_option,
    {
        WeatherRequest { address: slice_to_vec(address), date_option }
    }

    /// Whether the resolved day-offset falls in the provider's window.
    pub fn is_date_available(&self) -> (r: bool)
        ensures
            r == spec_ow_available(self.date_option.days_from_now as int),
    {
        0 <= self.date_option.days_from_now && self.date_option.days_from_now <= 16
    }

    /// The full query URL, or `DateOutOfRange` for any day-offset
    /// outside the window.
    pub fn query(&self, api_key: &[u8]) -> (r: Result<Vec<u8>, QueryError>)
        ensures
            spec_ow_available(self.date_option.days_from_now as int) ==> (r matches Ok(q) && q@
                == spec_ow_query(
                self.address@,
                self.date_option.days_from_now as int,
                api_key@,
            )),
            !spec_ow_available(self.date_option.days_from_now as int) ==> r == Err::<
                Vec<u8>,
                QueryError,
            >(QueryError::DateOutOfRange),
    {
        if !self.is_date_available() {
            return Err(QueryError::DateOutOfRange);
        }
        let mut v = slice_to_vec("https://api.openweathermap.org/data/2.5/forecast/daily?q=".as_bytes());
        urlencode_into(&mut v, self.address.as_slice());
        append_bytes(&mut v, "&cnt=".as_bytes());
        push_dec_u64(&mut v, (self.date_option.days_from_now + 1) as u64);
        append_bytes(&mut v, "&units=metric&appid=".as_bytes());
        urlencode_into(&mut v, api_key);
        proof {
            assert(v@ =~= spec_ow_query(
                self.address@,
                self.date_option.days_from_now as int,
                api_key@,
            ));
        }
        Ok(v)
    }
}

/// The condition text of a day entry: the `main` text of the first
/// `weather` descriptor; anything short of that degrades to the empty
/// string.
pub open spec fn spec_ow_condition(dayf: Seq<(Seq<u8>, JVal)>) -> Seq<u8> {
    match spec_get_arr(dayf, "weather".spec_bytes()) {
        Some(w) => if w.len() > 0 {
            match w[0] {
                JVal::Obj(wf) => match spec_get_str(wf, "main".spec_bytes()) {
                    Some(t) => t,
                    None => Seq::empty(),
                },
                _ => Seq::empty(),
            }
        } else {
            Seq::empty()
        },
        None => Seq::empty(),
    }
}

/// The location line of the canonical record: city name and country
/// joined by a comma; this provider reports no region.
pub open spec fn spec_ow_location(city: Seq<(Seq<u8>, JVal)>) -> Option<Seq<u8>> {
    match (spec_get_str(city, "name".spec_bytes()), spec_get_str(city, "country".spec_bytes())) {
        (Some(n), Some(c)) => Some(n + ", ".spec_bytes() + c),
        _ => None,
    }
}

/// The canonical record a city block and one day entry denote. The
/// entry's timestamp, read at UTC midnight, names the date; one whose
/// day falls outside the representable calendar is a malformed
/// payload, as is any missing or ill-typed required field.
pub open spec fn spec_ow_day(city: Seq<(Seq<u8>, JVal)>, day: JVal) -> Result<
    ForecastView,
    ParseError,
> {
    match day {
        JVal::Obj(dayf) => match spec_get_num(dayf, "dt".spec_bytes()) {
            Some(token) => match spec_parse_i64(token) {
                Some(ts) => if spec_timestamp_day(ts) < 0 || spec_timestamp_day(ts)
                    > spec_max_day_number() {
                    Err(ParseError::MalformedPayload)
                } else {
                    match (
                        spec_get_obj(dayf, "temp".spec_bytes()),
                        spec_get_num(dayf, "humidity".spec_bytes()),
                        spec_get_num(dayf, "speed".spec_bytes()),
                        spec_ow_location(city),
                    ) {
                        (Some(temp), Some(hum), Some(speed), Some(location)) => match (
                            spec_get_num(temp, "day".spec_bytes()),
                            spec_get_num(temp, "min".spec_bytes()),
                            spec_get_num(temp, "max".spec_bytes()),
                        ) {
                            (Some(avg), Some(mint), Some(maxt)) => Ok(
                                ForecastView {
                                    location,
                                    date: spec_date_str(
                                        spec_date_of_day(spec_timestamp_day(ts)),
                                    ),
                                    max_temp: maxt,
                                    min_temp: mint,
                                    avg_temp: avg,
                                    maxwind_kph: speed,
                                    avghumidity: hum,
                                    condition: spec_ow_condition(dayf),
                                },
                            ),
                            _ => Err(ParseError::MalformedPayload),
                        },
                        _ => Err(ParseError::MalformedPayload),
                    }
                },
                None => Err(ParseError::MalformedPayload),
            },
            None => Err(ParseError::MalformedPayload),
        },
        _ => Err(ParseError::MalformedPayload),
    }
}

/// The canonical record a whole OpenWeather payload denotes: the last
/// entry of the day list is the requested day; an empty list is the
/// recoverable `NoForecastAvailable`, never an abort.
pub open spec fn spec_ow_forecast(v: JVal) -> Result<ForecastView, ParseError> {
    match v {
        JVal::Obj(top) => match (
            spec_get_obj(top, "city".spec_bytes()),
            spec_get_arr(top, "list".spec_bytes()),
        ) {
            (Some(city), Some(list)) => if list.len() == 0 {
                Err(ParseError::NoForecastAvailable)
            } else {
                spec_ow_day(city, list.last())
            },
            _ => Err(ParseError::MalformedPayload),
        },
        _ => Err(ParseError::MalformedPayload),
    }
}

/// What a raw OpenWeather body yields: a body that is no JSON
/// document is malformed; otherwise the payload decides.
pub open spec fn spec_ow_response(body: Seq<u8>) -> Result<ForecastView, ParseError> {
    match spec_parse_json(body) {
        Some(v) => spec_ow_forecast(v),
        None => Err(ParseError::MalformedPayload),
    }
}

/// A payload whose day list is empty yields the recoverable
/// `NoForecastAvailable`, whatever else it holds — never a malformed
/// verdict and, the parser being total, never an abort.
pub proof fn lemma_empty_day_list_recoverable(v: JVal)
    requires
        ({
            &&& v matches JVal::Obj(top)
            &&& spec_get_obj(top, "city".spec_bytes()) is Some
            &&& spec_get_arr(top, "list".spec_bytes()) == Some(Seq::<JVal>::empty())
        }),
    ensures
        spec_ow_forecast(v) == Err::<ForecastView, ParseError>(ParseError::NoForecastAvailable),
{
}

fn compose_location(city: &Vec<(Vec<u8>, Json)>) -> (r: Option<Vec<u8>>)
    ensures
        match r {
            Some(v) => spec_ow_location(crate::json::json_view_obj(city@)) == Some(v@),
            None => spec_ow_location(crate::json::json_view_obj(city@)) is None,
        },
{
    let name = match get_str(city, "name".as_bytes()) {
        Some(n) => n,
        None => {
            return None;
        },
    };
    let country = match get_str(city, "country".as_bytes()) {
        Some(c) => c,
        None => {
            return None;
        },
    };
    let mut v = slice_to_vec(name.as_slice());
    append_bytes(&mut v, ", ".as_bytes());
    append_bytes(&mut v, country.as_slice());
    Some(v)
}

fn extract_condition(dayf: &Vec<(Vec<u8>, Json)>) -> (r: Vec<u8>)
    ensures
        r@ == spec_ow_condition(crate::json::json_view_obj(dayf@)),
{
    match get_arr(dayf, "weather".as_bytes()) {
        Some(w) => {
            if w.len() > 0 {
                proof {
                    lemma_json_view_arr(w@);
                }
                match &w[0] {
                    Json::Obj(wf) => match get_str(wf, "main".as_bytes()) {
                        Some(t) => slice_to_vec(t.as_slice()),
                        None => Vec::new(),
                    },
                    _ => Vec::new(),
                }
            } else {
                Vec::new()
            }
        },
        None => Vec::new(),
    }
}

/// Normalizes a parsed OpenWeather payload into the canonical record.
pub fn build_forecast(data: &Json) -> (r: Result<ForecastResponseData, ParseError>)
    ensures
        match r {
            Ok(f) => spec_ow_forecast(json_view(*data)) == Ok::<ForecastView, ParseError>(f@),
            Err(e) => spec_ow_forecast(json_view(*data)) == Err::<ForecastView, ParseError>(e),
        },
{
    let top = match data {
        Json::Obj(top) => top,
        _ => {
            return Err(ParseError::MalformedPayload);
        },
    };
    let city = match get_obj(top, "city".as_bytes()) {
        Some(c) => c,
        None => {
            return Err(ParseError::MalformedPayload);
        },
    };
    let list = match get_arr(top, "list".as_bytes()) {
        Some(l) => l,
        None => {
            return Err(ParseError::MalformedPayload);
        },
    };
    if list.len() == 0 {
        return Err(ParseError::NoForecastAvailable);
    }
    let day = &list[list.len() - 1];
    proof {
        lemma_json_view_arr(list@);
        assert(json_view_arr(list@).last() == json_view(list@.last()));
    }
    let dayf = match day {
        Json::Obj(dayf) => dayf,
        _ => {
            return Err(ParseError::MalformedPayload);
        },
    };
    build_day(city, dayf)
}

/// Normalizes one day entry, already split into its members, against
/// the given city block.
fn build_day(city: &Vec<(Vec<u8>, Json)>, dayf: &Vec<(Vec<u8>, Json)>) -> (r: Result<
    ForecastResponseData,
    ParseError,
>)
    ensures
        match r {
            Ok(f) => spec_ow_day(
                crate::json::json_view_obj(city@),
                JVal::Obj(crate::json::json_view_obj(dayf@)),
            ) == Ok::<ForecastView, ParseError>(f@),
            Err(e) => spec_ow_day(
                crate::json::json_view_obj(city@),
                JVal::Obj(crate::json::json_view_obj(dayf@)),
            ) == Err::<ForecastView, ParseError>(e),
        },
{
    let token = match get_num(dayf, "dt".as_bytes()) {
        Some(t) => t,
        None => {
            return Err(ParseError::MalformedPayload);
        },
    };
    let ts = match parse_i64(token.as_slice()) {
        Some(v) => v,
        None => {
            return Err(ParseError::MalformedPayload);
        },
    };
    let date = match date_from_timestamp(ts) {
        Some(d) => d,
        None => {
            return Err(ParseError::MalformedPayload);
        },
    };
    proof {
        let td = spec_timestamp_day(ts as int);
        let c = spec_date_of_day(td);
        crate::date::lemma_day_number_max(date);
        assert(spec_valid_date(date) && spec_day_number(date) == td);
        assert(spec_valid_date(c) && spec_day_number(c) == td) by {
            assert(exists|x: Date| spec_valid_date(x) && spec_day_number(x) == td) by {
                assert(spec_valid_date(date) && spec_day_number(date) == td);
            }
        }
        lemma_day_number_injective(date, c);
    }
    let date_string = date.date_string();
    let temp = match get_obj(dayf, "temp".as_bytes()) {
        Some(t) => t,
        None => {
            return Err(ParseError::MalformedPayload);
        },
    };
    let hum = match get_num(dayf, "humidity".as_bytes()) {
        Some(h) => h,
        None => {
            return Err(ParseError::MalformedPayload);
        },
    };
    let speed = match get_num(dayf, "speed".as_bytes()) {
        Some(s) => s,
        None => {
            return Err(ParseError::MalformedPayload);
        },
    };
    let location = match compose_location(city) {
        Some(l) => l,
        None => {
            return Err(ParseError::MalformedPayload);
        },
    };
    let avg = match get_num(temp, "day".as_bytes()) {
        Some(t) => t,
        None => {
            return Err(ParseError::MalformedPayload);
        },
    };
    let mint = match get_num(temp, "min".as_bytes()) {
        Some(t) => t,
        None => {
            return Err(ParseError::MalformedPayload);
        },
    };
    let maxt = match get_num(temp, "max".as_bytes()) {
        Some(t) => t,
        None => {
            return Err(ParseError::MalformedPayload);
        },
    };
    let condition = extract_condition(dayf);
    Ok(ForecastResponseData {
        location,
        date: date_string,
        max_temp: slice_to_vec(maxt.as_slice()),
        min_temp: slice_to_vec(mint.as_slice()),
        avg_temp: slice_to_vec(avg.as_slice()),
        maxwind_kph: slice_to_vec(speed.as_slice()),
        avghumidity: slice_to_vec(hum.as_slice()),
        condition,
    })
}

impl OpenWeatherStrategy {
    /// Builds the provider query for an address and a date
    /// expression, the expression resolved against the injected
    /// `today`; a resolved date outside the window is rejected.
    pub fn build_request(&self, address: &[u8], date: &[u8], today: Date, api_key: &[u8]) -> (r:
        Result<Vec<u8>, QueryError>)
        requires
            spec_valid_date(today),
        ensures
            ({
                let days = spec_day_number(spec_resolve_date(date@, today)) - spec_day_number(
                    today,
                );
                &&& spec_ow_available(days) ==> (r matches Ok(q) && q@ == spec_ow_query(
                    address@,
                    days,
                    api_key@,
                ))
                &&& !spec_ow_available(days) ==> r == Err::<Vec<u8>, QueryError>(
                    QueryError::DateOutOfRange,
                )
            }),
    {
        let d = DateOption::new(date, today);
        WeatherRequest::new(address, d).query(api_key)
    }

    /// Parses a raw provider body into the canonical record.
    pub fn build_response(&self, body: &[u8]) -> (r: Result<ForecastResponseData, ParseError>)
        ensures
            match r {
                Ok(f) => spec_ow_response(body@) == Ok::<ForecastView, ParseError>(f@),
                Err(e) => spec_ow_response(body@) == Err::<ForecastView, ParseError>(e),
            },
    {
        match parse_json(body) {
            Some(data) => build_forecast(&data),
            None => Err(ParseError::MalformedPayload),
        }
    }
}

} // verus!
