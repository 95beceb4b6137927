//! The weather service's request and what its reply becomes.
use vstd::prelude::*;
use crate::decimal::{
    Decimal, decimal_of, is_decimal_text, is_one_decimal_text, is_tenths_text, natural_text, nat_text,
    parse_decimal,
};
use crate::report::WeatherReport;

verus! {

/// A place to look up: a city and its country code, as the user typed them.
#[derive(Clone, Debug)]
pub struct WeatherQuery {
    pub city: String,
    pub country_code: String,
}

/// Why a lookup failed.
#[derive(Clone, Debug)]
pub enum ClientError {
    /// The request did not complete (name lookup, connection, TLS).
    Transport(String),
    /// The reply's body was not of the expected shape.
    Parse(String),
    /// The service answered with a status outside 200 to 299.
    Api { status: u16, body: String },
    /// The reply listed no weather conditions.
    EmptyWeather,
}

/// The service's reply as decoded, numbers as text.
#[derive(Clone, Debug)]
pub struct WeatherResponse {
    /// The description of each weather condition, in the reply's order.
    pub conditions: Vec<String>,
    /// The temperature in its shortest decimal text, which picks the icon.
    pub temperature: String,
    /// The measurements as printed with one fractional digit.
    pub temperature_text: String,
    pub humidity_text: String,
    pub pressure_text: String,
    pub wind_speed_text: String,
    pub name: String,
}

/// The request target for a query; city, country and key go in as they are,
/// without any escaping.
pub open spec fn url_of(city: Seq<char>, country_code: Seq<char>, api_key: Seq<char>) -> Seq<char> {
    "https://api.openweathermap.org/data/2.5/weather?q="@ + city + ", "@ + country_code
        + "&units=metric&appid="@ + api_key
}

/// Builds the request target of a query, in metric units.
pub fn request_url(query: &WeatherQuery, api_key: &str) -> (r: String)
    ensures
        r@ == url_of(query.city@, query.country_code@, api_key@),
{
    let mut r = String::from_str("https://api.openweathermap.org/data/2.5/weather?q=");
    r.append(query.city.as_str());
    r.append(", ");
    r.append(query.country_code.as_str());
    r.append("&units=metric&appid=");
    r.append(api_key);
    r
}

/// The reply's status as an outcome: `Ok` for a status from 200 to 299, else
/// `Api` with the status and the body.
pub fn check_status(status: u16, body: String) -> (r: Result<(), ClientError>)
    ensures
        200 <= status < 300 ==> r is Ok,
        !(200 <= status < 300) ==> r == Err::<(), ClientError>(ClientError::Api { status, body }),
{
    if is_success_status(status) {
        Ok(())
    } else {
        Err(ClientError::Api { status, body })
    }
}

/// Whether an HTTP status reports success.
pub fn is_success_status(status: u16) -> (r: bool)
    ensures
        r == (200 <= status < 300),
{
    200 <= status && status < 300
}

/// The temperature is decimal text, and each printed measurement has exactly
/// one fractional digit.
pub open spec fn measurements_readable(resp: WeatherResponse) -> bool {
    &&& is_decimal_text(resp.temperature@)
    &&& is_tenths_text(resp.temperature_text@)
    &&& is_tenths_text(resp.humidity_text@)
    &&& is_tenths_text(resp.pressure_text@)
    &&& is_tenths_text(resp.wind_speed_text@)
}

fn read_measurement(text: &String, field: &str) -> (r: Result<Decimal, ClientError>)
    ensures
        is_decimal_text(text@) ==> r == Ok::<Decimal, ClientError>(decimal_of(text@)),
        !is_decimal_text(text@) ==> r matches Err(ClientError::Parse(_)),
        r matches Ok(d) ==> d.wf(),
{
    match parse_decimal(text.as_str()) {
        Some(d) => Ok(d),
        None => {
            let mut m = String::from_str(field);
            m.append(" is not a decimal number: ");
            m.append(text.as_str());
            Err(ClientError::Parse(m))
        },
    }
}

fn read_printed(text: &String, field: &str) -> (r: Result<(), ClientError>)
    ensures
        is_tenths_text(text@) ==> r is Ok,
        !is_tenths_text(text@) ==> r matches Err(ClientError::Parse(_)),
{
    if is_one_decimal_text(text.as_str()) {
        Ok(())
    } else {
        let mut m = String::from_str(field);
        m.append(" does not have one fractional digit: ");
        m.append(text.as_str());
        Err(ClientError::Parse(m))
    }
}

/// Turns a decoded reply into a report: its first condition, its place and its
/// measurements.
///
/// A temperature that is not decimal text, or a printed measurement without
/// exactly one fractional digit, gives `Parse`;
/// a reply without conditions gives `EmptyWeather`.
pub fn report_from_response(resp: &WeatherResponse) -> (r: Result<WeatherReport, ClientError>)
    ensures
        r is Ok <==> measurements_readable(*resp) && resp.conditions@.len() > 0,
        r matches Err(ClientError::Parse(_)) <==> !measurements_readable(*resp),
        r matches Err(ClientError::EmptyWeather) <==> measurements_readable(*resp)
            && resp.conditions@.len() == 0,
        r matches Ok(rep) ==> {
            &&& rep.wf()
            &&& rep.description == resp.conditions@[0]
            &&& rep.location == resp.name
            &&& rep.temperature == decimal_of(resp.temperature@)
            &&& rep.temperature_text == resp.temperature_text
            &&& rep.humidity_text == resp.humidity_text
            &&& rep.pressure_text == resp.pressure_text
            &&& rep.wind_speed_text == resp.wind_speed_text
        },
{
    let temperature = match read_measurement(&resp.temperature, "temperature") {
        Ok(d) => d,
        Err(e) => return Err(e),
    };
    if let Err(e) = read_printed(&resp.temperature_text, "temperature") {
        return Err(e);
    }
    if let Err(e) = read_printed(&resp.humidity_text, "humidity") {
        return Err(e);
    }
    if let Err(e) = read_printed(&resp.pressure_text, "pressure") {
        return Err(e);
    }
    if let Err(e) = read_printed(&resp.wind_speed_text, "wind speed") {
        return Err(e);
    }
    if resp.conditions.len() == 0 {
        return Err(ClientError::EmptyWeather);
    }
    Ok(
        WeatherReport {
            location: resp.name.clone(),
            description: resp.conditions[0].clone(),
            temperature,
            temperature_text: resp.temperature_text.clone(),
            humidity_text: resp.humidity_text.clone(),
            pressure_text: resp.pressure_text.clone(),
            wind_speed_text: resp.wind_speed_text.clone(),
        },
    )
}

/// The one-line text of an error.
pub open spec fn error_text(e: ClientError) -> Seq<char> {
    match e {
        ClientError::Transport(m) => "request failed: "@ + m@,
        ClientError::Parse(m) => "unreadable reply: "@ + m@,
        ClientError::Api { status, body } => "the service answered "@ + nat_text(status as nat)
            + ": "@ + body@,
        ClientError::EmptyWeather => "the reply lists no weather conditions"@,
    }
}

impl ClientError {
    /// Describes the error in one line.
    pub fn message(&self) -> (r: String)
        ensures
            r@ == error_text(*self),
    {
        match self {
            ClientError::Transport(m) => {
                let mut r = String::from_str("request failed: ");
                r.append(m.as_str());
                r
            },
            ClientError::Parse(m) => {
                let mut r = String::from_str("unreadable reply: ");
                r.append(m.as_str());
                r
            },
            ClientError::Api { status, body } => {
                let mut r = String::from_str("the service answered ");
                let s = natural_text(*status as u64);
                r.append(s.as_str());
                r.append(": ");
                r.append(body.as_str());
                r
            },
            ClientError::EmptyWeather => String::from_str("the reply lists no weather conditions"),
        }
    }
}

} // verus!
