//! Weather: where a location argument points, what the geocoding, time zone,
//! forecast and air quality services' replies come to, and condition names.

use vstd::prelude::*;
use crate::pattern::{captures, group, group_of, regex_captures};
use crate::raiderio::{ascii_lower, lowercase_ascii};
use crate::text::{chars_of, same_text};

verus! {

/// The name of a weather condition code (as the forecast service numbers them).
pub open spec fn condition_text(code: Option<u32>) -> Seq<char> {
    match code {
        None => "unknown"@,
        Some(c) => if c == 1000 { "clear"@ }
            else if c == 1001 { "cloudy"@ }
            else if c == 1100 { "mostly clear"@ }
            else if c == 1101 { "partly cloudy"@ }
            else if c == 1102 { "mostly cloudy"@ }
            else if c == 2000 { "fog"@ }
            else if c == 2100 { "light fog"@ }
            else if c == 3000 { "light wind"@ }
            else if c == 3001 { "wind"@ }
            else if c == 3002 { "strong wind"@ }
            else if c == 4000 { "drizzle"@ }
            else if c == 4001 { "rain"@ }
            else if c == 4200 { "light rain"@ }
            else if c == 4201 { "heavy rain"@ }
            else if c == 5000 { "snow"@ }
            else if c == 5001 { "flurries"@ }
            else if c == 5100 { "light snow"@ }
            else if c == 5101 { "heavy snow"@ }
            else if c == 6000 { "freezing drizzle"@ }
            else if c == 6001 { "freezing rain"@ }
            else if c == 6200 { "light freezing rain"@ }
            else if c == 6201 { "heavy freezing rain"@ }
            else if c == 7000 { "ice pellets"@ }
            else if c == 7101 { "heavy ice pellets"@ }
            else if c == 7102 { "light ice pellets"@ }
            else if c == 8000 { "thunderstorm"@ }
            else { "unknown"@ },
    }
}

/// The weather codes the forecast service documents.
pub open spec fn documented_code(c: u32) -> bool {
    c == 1000 || c == 1001 || c == 1100 || c == 1101 || c == 1102 || c == 2000 || c == 2100 || c == 3000
        || c == 3001 || c == 3002 || c == 4000 || c == 4001 || c == 4200 || c == 4201 || c == 5000 || c == 5001
        || c == 5100 || c == 5101 || c == 6000 || c == 6001 || c == 6200 || c == 6201 || c == 7000 || c == 7101
        || c == 7102 || c == 8000
}

/// Each documented weather code has a name of its own: two different codes
/// never read the same, and "unknown" is left for codes the service does not
/// document (and for a missing code).
pub proof fn lemma_condition_names_distinct(c1: u32, c2: u32)
    ensures
        condition_text(Some(c1)) == "unknown"@ <==> !documented_code(c1),
        condition_text(None) == "unknown"@,
        documented_code(c1) && documented_code(c2) && c1 != c2 ==> condition_text(Some(c1)) != condition_text(
            Some(c2),
        ),
{
    reveal_strlit("unknown");
    reveal_strlit("clear");
    reveal_strlit("cloudy");
    reveal_strlit("mostly clear");
    reveal_strlit("partly cloudy");
    reveal_strlit("mostly cloudy");
    reveal_strlit("fog");
    reveal_strlit("light fog");
    reveal_strlit("light wind");
    reveal_strlit("wind");
    reveal_strlit("strong wind");
    reveal_strlit("drizzle");
    reveal_strlit("rain");
    reveal_strlit("light rain");
    reveal_strlit("heavy rain");
    reveal_strlit("snow");
    reveal_strlit("flurries");
    reveal_strlit("light snow");
    reveal_strlit("heavy snow");
    reveal_strlit("freezing drizzle");
    reveal_strlit("freezing rain");
    reveal_strlit("light freezing rain");
    reveal_strlit("heavy freezing rain");
    reveal_strlit("ice pellets");
    reveal_strlit("heavy ice pellets");
    reveal_strlit("light ice pellets");
    reveal_strlit("thunderstorm");
    assert("unknown"@.len() == 7);
    assert("clear"@.len() == 5);
    assert("cloudy"@.len() == 6);
    assert("mostly clear"@.len() == 12);
    assert("partly cloudy"@.len() == 13);
    assert("mostly cloudy"@.len() == 13);
    assert("fog"@.len() == 3);
    assert("light fog"@.len() == 9);
    assert("light wind"@.len() == 10);
    assert("wind"@.len() == 4);
    assert("strong wind"@.len() == 11);
    assert("drizzle"@.len() == 7);
    assert("rain"@.len() == 4);
    assert("light rain"@.len() == 10);
    assert("heavy rain"@.len() == 10);
    assert("snow"@.len() == 4);
    assert("flurries"@.len() == 8);
    assert("light snow"@.len() == 10);
    assert("heavy snow"@.len() == 10);
    assert("freezing drizzle"@.len() == 16);
    assert("freezing rain"@.len() == 13);
    assert("light freezing rain"@.len() == 19);
    assert("heavy freezing rain"@.len() == 19);
    assert("ice pellets"@.len() == 11);
    assert("heavy ice pellets"@.len() == 17);
    assert("light ice pellets"@.len() == 17);
    assert("thunderstorm"@.len() == 12);
    assert("unknown"@[0] != "drizzle"@[0]);
    assert("mostly clear"@[0] != "thunderstorm"@[0]);
    assert("partly cloudy"@[0] != "mostly cloudy"@[0]);
    assert("partly cloudy"@[0] != "freezing rain"@[0]);
    assert("mostly cloudy"@[0] != "freezing rain"@[0]);
    assert("light wind"@[6] != "light rain"@[6]);
    assert("light wind"@[0] != "heavy rain"@[0]);
    assert("light wind"@[6] != "light snow"@[6]);
    assert("light wind"@[0] != "heavy snow"@[0]);
    assert("wind"@[0] != "rain"@[0]);
    assert("wind"@[0] != "snow"@[0]);
    assert("strong wind"@[0] != "ice pellets"@[0]);
    assert("rain"@[0] != "snow"@[0]);
    assert("light rain"@[0] != "heavy rain"@[0]);
    assert("light rain"@[6] != "light snow"@[6]);
    assert("light rain"@[0] != "heavy snow"@[0]);
    assert("heavy rain"@[0] != "light snow"@[0]);
    assert("heavy rain"@[6] != "heavy snow"@[6]);
    assert("light snow"@[0] != "heavy snow"@[0]);
    assert("light freezing rain"@[0] != "heavy freezing rain"@[0]);
    assert("heavy ice pellets"@[0] != "light ice pellets"@[0]);
}

/// The name of a weather condition code.
pub fn condition(code: Option<u32>) -> (res: &'static str)
    ensures
        res@ == condition_text(code),
{
    match code {
        None => "unknown",
        Some(c) => if c == 1000 { "clear" }
            else if c == 1001 { "cloudy" }
            else if c == 1100 { "mostly clear" }
            else if c == 1101 { "partly cloudy" }
            else if c == 1102 { "mostly cloudy" }
            else if c == 2000 { "fog" }
            else if c == 2100 { "light fog" }
            else if c == 3000 { "light wind" }
            else if c == 3001 { "wind" }
            else if c == 3002 { "strong wind" }
            else if c == 4000 { "drizzle" }
            else if c == 4001 { "rain" }
            else if c == 4200 { "light rain" }
            else if c == 4201 { "heavy rain" }
            else if c == 5000 { "snow" }
            else if c == 5001 { "flurries" }
            else if c == 5100 { "light snow" }
            else if c == 5101 { "heavy snow" }
            else if c == 6000 { "freezing drizzle" }
            else if c == 6001 { "freezing rain" }
            else if c == 6200 { "light freezing rain" }
            else if c == 6201 { "heavy freezing rain" }
            else if c == 7000 { "ice pellets" }
            else if c == 7101 { "heavy ice pellets" }
            else if c == 7102 { "light ice pellets" }
            else if c == 8000 { "thunderstorm" }
            else { "unknown" },
    }
}

/// An air quality observation: the index and its category's name.
pub struct Observation {
    pub aqi: i32,
    pub category: String,
}

/// The index of the observation with the highest air quality index; the first
/// among equals.
pub open spec fn worst_observation(obs: Seq<Observation>) -> Option<int>
    decreases obs.len(),
{
    if obs.len() == 0 {
        None
    } else {
        match worst_observation(obs.drop_last()) {
            None => Some(obs.len() - 1),
            Some(i) => if obs.last().aqi > obs[i].aqi { Some(obs.len() - 1) } else { Some(i) },
        }
    }
}

/// The highest air quality index among the observations, with its category.
pub fn worst_air(obs: &Vec<Observation>) -> (res: Option<(i32, String)>)
    ensures
        match worst_observation(obs@) {
            None => res is None,
            Some(i) => res matches Some((a, c)) && a == obs@[i].aqi && c@ == obs@[i].category@,
        },
{
    let mut best: Option<usize> = None;
    let mut k: usize = 0;
    while k < obs.len()
        invariant
            k <= obs.len(),
            (match best {
                Some(b) => Some(b as int),
                None => None,
            }) == worst_observation(obs@.take(k as int)),
            best matches Some(b) ==> b < k,
        decreases obs.len() - k,
    {
        assert(obs@.take(k + 1).drop_last() =~= obs@.take(k as int));
        match best {
            None => {
                best = Some(k);
            },
            Some(b) => {
                if obs[k].aqi > obs[b].aqi {
                    best = Some(k);
                }
            },
        }
        k = k + 1;
    }
    assert(obs@.take(obs.len() as int) =~= obs@);
    match best {
        None => None,
        Some(b) => Some((obs[b].aqi, obs[b].category.clone())),
    }
}

/// A latitude and longitude pair, as the location argument may give one.
pub const POINT_PATTERN: &'static str = "^(-?\\d+\\.?\\d*)[,\\s]+(-?\\d+\\.?\\d*)$";

/// Where a location argument points.
pub enum LocationQuery {
    /// The latitude and longitude, as written.
    Coordinates(String, String),
    /// A place to look up.
    Search(String),
    /// No location given: the configured default.
    Default,
}

/// Group `i` of a match, or nothing where the group did not take part.
pub open spec fn group_text(caps: Seq<Option<Seq<char>>>, i: int) -> Seq<char> {
    match group(caps, i) {
        Some(g) => g,
        None => Seq::empty(),
    }
}

/// Reads a location argument: coordinates where it is a latitude and longitude
/// pair, else a place to look up where it is not empty, else the default.
pub fn parse_location(args: &str) -> (res: LocationQuery)
    ensures
        match regex_captures(POINT_PATTERN@, args@) {
            Some(caps) => res matches LocationQuery::Coordinates(lat, lng) && lat@ == group_text(caps, 1)
                && lng@ == group_text(caps, 2),
            None => if args@.len() > 0 {
                res matches LocationQuery::Search(s) && s@ == args@
            } else {
                res is Default
            },
        },
{
    match captures(POINT_PATTERN, args) {
        Some(caps) => {
            let lat = match group_of(&caps, 1) {
                Some(g) => g,
                None => String::new(),
            };
            let lng = match group_of(&caps, 2) {
                Some(g) => g,
                None => String::new(),
            };
            LocationQuery::Coordinates(lat, lng)
        },
        None => {
            if chars_of(args).len() > 0 {
                LocationQuery::Search(args.to_string())
            } else {
                LocationQuery::Default
            }
        },
    }
}

/// The name a looked-up place is shown under: the name the geocoder gives, else
/// the search text, ASCII capitals lowered.
pub fn place_name(found: Option<&str>, args: &str) -> (res: String)
    ensures
        res@ == ascii_lower(match found {
            Some(n) => n@,
            None => args@,
        }),
{
    match found {
        Some(n) => lowercase_ascii(n),
        None => lowercase_ascii(args),
    }
}

/// A result of the geocoder: whether it has a location, and the long name of
/// its first address component (`None` where there is no component list,
/// `Some(None)` where the list is empty or the first has no long name).
pub struct GeocodeResult {
    pub has_location: bool,
    pub first_component: Option<Option<String>>,
}

/// Why a lookup with the geocoding or time zone service failed.
pub enum LookupError {
    Request(String),
    Status(String),
    NoResults,
    MissingGeometry,
    InvalidTz(String),
}

/// Decides what a geocoding reply comes to: the place's name, if any, from
/// the first result (whose location the caller takes); or why there is none.
pub fn read_geocode(status: &str, results: &Vec<GeocodeResult>) -> (res: Result<Option<String>, LookupError>)
    ensures
        status@ != "OK"@ ==> (res matches Err(LookupError::Status(s)) && s@ == status@),
        status@ == "OK"@ && results@.len() == 0 ==> res matches Err(LookupError::NoResults),
        status@ == "OK"@ && results@.len() > 0 && !results@[0].has_location ==> res matches Err(LookupError::MissingGeometry),
        status@ == "OK"@ && results@.len() > 0 && results@[0].has_location ==> (match results@[0].first_component {
            Some(Some(n)) => res matches Ok(Some(m)) && m@ == n@,
            _ => res matches Ok(None),
        }),
{
    if !same_text(status, "OK") {
        return Err(LookupError::Status(status.to_string()));
    }
    if results.len() == 0 {
        return Err(LookupError::NoResults);
    }
    if !results[0].has_location {
        return Err(LookupError::MissingGeometry);
    }
    match &results[0].first_component {
        Some(Some(n)) => Ok(Some(n.clone())),
        _ => Ok(None),
    }
}

impl LookupError {
    /// The error as it is reported.
    pub fn message(&self) -> (res: String)
        ensures
            res@ == match *self {
                LookupError::Status(s) => "expected OK status, got "@ + s@,
                LookupError::NoResults => "0 geocoding results"@,
                LookupError::MissingGeometry => "missing geometry in geocoding result"@,
                LookupError::Request(e) => "request error: "@ + e@,
                LookupError::InvalidTz(e) => "invalid timezone ID: "@ + e@,
            },
    {
        match self {
            LookupError::Status(s) => {
                let mut m = "expected OK status, got ".to_string();
                m.append(s.as_str());
                m
            },
            LookupError::NoResults => "0 geocoding results".to_string(),
            LookupError::MissingGeometry => "missing geometry in geocoding result".to_string(),
            LookupError::Request(e) => {
                let mut m = "request error: ".to_string();
                m.append(e.as_str());
                m
            },
            LookupError::InvalidTz(e) => {
                let mut m = "invalid timezone ID: ".to_string();
                m.append(e.as_str());
                m
            },
        }
    }
}

#[verifier::external_type_specification]
#[verifier::external_body]
pub struct ExTz(chrono_tz::Tz);

/// Whether the time zone database knows the zone `name`.
pub uninterp spec fn zone_known(name: Seq<char>) -> bool;

/// The message the time zone database gives for a name it does not know (the
/// text of its parse error, the same for every name).
pub open spec fn zone_error_text() -> Seq<char> {
    "failed to parse timezone"@
}

/// Looks a zone up with `chrono_tz::Tz::from_str`: claimed to succeed exactly
/// where the name is known, and otherwise to give the text of its parse error,
/// "failed to parse timezone"; the zone itself is opaque.
#[verifier::external_body]
pub(crate) fn lookup_zone(name: &str) -> (res: Result<chrono_tz::Tz, String>)
    ensures
        res is Ok == zone_known(name@),
        res matches Err(e) ==> e@ == zone_error_text(),
{
    match <chrono_tz::Tz as std::str::FromStr>::from_str(name) {
        Ok(tz) => Ok(tz),
        Err(e) => Err(e.to_string()),
    }
}

/// The zone a clock command shows; `Err` with the database's message where the
/// zone is unknown.
pub fn clock_zone(clock: crate::commands::Clock) -> (res: Result<chrono_tz::Tz, String>)
    ensures
        res is Ok == zone_known(crate::commands::clock_zone(clock)),
        res matches Err(e) ==> e@ == zone_error_text(),
{
    lookup_zone(clock.zone())
}

/// What the time zone service's reply comes to: the zone, or why there is none.
pub fn read_time_zone(status: &str, zone_id: Option<&str>) -> (res: Result<chrono_tz::Tz, LookupError>)
    ensures
        status@ != "OK"@ ==> (res matches Err(LookupError::Status(s)) && s@ == status@),
        status@ == "OK"@ && zone_id is None ==> res matches Err(LookupError::NoResults),
        status@ == "OK"@ ==> (zone_id matches Some(z) ==> (
            (zone_known(z@) ==> res is Ok)
            && (!zone_known(z@) ==> (res matches Err(LookupError::InvalidTz(e)) && e@ == zone_error_text())))),
{
    if !same_text(status, "OK") {
        return Err(LookupError::Status(status.to_string()));
    }
    match zone_id {
        None => Err(LookupError::NoResults),
        Some(z) => match lookup_zone(z) {
            Ok(tz) => Ok(tz),
            Err(e) => Err(LookupError::InvalidTz(e)),
        },
    }
}

/// Why a forecast reply is unusable.
pub enum TimelineError {
    Request(String),
    MissingTimelines,
    MissingIntervals,
    /// The step that was asked for, and the one the reply has.
    InvalidInterval(&'static str, String),
}

/// Checks a forecast reply: its first timeline (its step, and how many
/// intervals it holds) must have the step asked for and at least one interval.
pub fn check_timeline(first: Option<(&str, usize)>, expected: &'static str) -> (res: Result<(), TimelineError>)
    ensures
        first is None ==> res matches Err(TimelineError::MissingTimelines),
        first matches Some((step, n)) ==> (
            (step@ != expected@ ==> (res matches Err(TimelineError::InvalidInterval(x, a)) && x@ == expected@ && a@ == step@))
            && (step@ == expected@ && n == 0 ==> res matches Err(TimelineError::MissingIntervals))
            && (step@ == expected@ && n > 0 ==> res is Ok)),
{
    match first {
        None => Err(TimelineError::MissingTimelines),
        Some((step, n)) => {
            if !same_text(step, expected) {
                Err(TimelineError::InvalidInterval(expected, step.to_string()))
            } else if n == 0 {
                Err(TimelineError::MissingIntervals)
            } else {
                Ok(())
            }
        },
    }
}

impl TimelineError {
    /// The error as it is reported.
    pub fn message(&self) -> (res: String)
        ensures
            res@ == match *self {
                TimelineError::MissingTimelines => "response missing timelines"@,
                TimelineError::MissingIntervals => "timeline missing intervals"@,
                TimelineError::InvalidInterval(x, a) => "expect timeline interval "@ + x@ + ", got "@ + a@,
                TimelineError::Request(e) => "request error: "@ + e@,
            },
    {
        match self {
            TimelineError::MissingTimelines => "response missing timelines".to_string(),
            TimelineError::MissingIntervals => "timeline missing intervals".to_string(),
            TimelineError::InvalidInterval(x, a) => {
                let mut m = "expect timeline interval ".to_string();
                m.append(x);
                m.append(", got ");
                m.append(a.as_str());
                m
            },
            TimelineError::Request(e) => {
                let mut m = "request error: ".to_string();
                m.append(e.as_str());
                m
            },
        }
    }
}

/// The hours a forecast covers: the option's value where given, else 6.
pub fn forecast_hours(option: Option<i64>) -> (res: i64)
    ensures
        res == match option {
            Some(h) => h,
            None => 6,
        },
{
    match option {
        Some(h) => h,
        None => 6,
    }
}

/// `n` spaces.
pub open spec fn spaces(n: int) -> Seq<char> {
    Seq::new(if n > 0 { n as nat } else { 0 }, |i: int| ' ')
}

/// `s` centred in `width` characters (an odd space goes to the right).
pub open spec fn centred(s: Seq<char>, width: int) -> Seq<char> {
    if s.len() >= width {
        s
    } else {
        spaces((width - s.len()) / 2) + s + spaces((width - s.len()) - (width - s.len()) / 2)
    }
}

/// `s` padded on the right to `width` characters.
pub open spec fn left_aligned(s: Seq<char>, width: int) -> Seq<char> {
    s + spaces(width - s.len())
}

fn push_spaces(s: &mut String, n: usize)
    ensures
        final(s)@ == old(s)@ + spaces(n as int),
{
    let mut k: usize = 0;
    while k < n
        invariant
            k <= n,
            s@ == old(s)@ + spaces(k as int),
        decreases n - k,
    {
        crate::text::push_char(s, ' ');
        assert(s@ =~= old(s)@ + spaces(k + 1));
        k = k + 1;
    }
}

fn centre(text: &str, width: usize) -> (res: String)
    ensures
        res@ == centred(text@, width as int),
{
    let n = chars_of(text).len();
    let mut s = String::new();
    if n >= width {
        s.append(text);
        assert(s@ =~= text@);
        return s;
    }
    let pad = width - n;
    push_spaces(&mut s, pad / 2);
    s.append(text);
    push_spaces(&mut s, pad - pad / 2);
    s
}

fn text_with(value: Option<&str>, before: &str, after: &str, otherwise: &str) -> (res: String)
    ensures
        res@ == match value {
            Some(v) => before@ + v@ + after@,
            None => otherwise@,
        },
{
    match value {
        Some(v) => {
            let mut s = before.to_string();
            s.append(v);
            s.append(after);
            s
        },
        None => otherwise.to_string(),
    }
}

/// A reading written with its prefix and suffix, or `otherwise` where missing.
pub open spec fn reading(value: Option<&str>, before: Seq<char>, after: Seq<char>, otherwise: Seq<char>) -> Seq<char> {
    match value {
        Some(v) => before + v@ + after,
        None => otherwise,
    }
}

/// The current conditions, the readings already written as numbers (whole
/// degrees and percent, tenths of miles per hour).
pub struct Conditions<'a> {
    pub temperature: Option<&'a str>,
    pub feels_like: Option<&'a str>,
    pub humidity: Option<&'a str>,
    pub dew_point: Option<&'a str>,
    pub wind_speed: Option<&'a str>,
    pub wind_direction: Option<&'a str>,
    pub wind_gust: Option<&'a str>,
    pub uv_index: Option<u32>,
    pub weather_code: Option<u32>,
    /// The air quality index and its category.
    pub air_quality: Option<(i32, &'a str)>,
}

/// The weather reply.
pub open spec fn weather_text(place: Seq<char>, c: Conditions) -> Seq<char> {
    "weather in "@ + place
        + "\ntemperature | "@ + reading(c.temperature, ""@, " \u{b0}F"@, "--"@) + " "@
        + reading(c.feels_like, "(feels like "@, " \u{b0}F)"@, ""@)
        + "\nconditions | "@ + condition_text(c.weather_code)
        + "\nrelative humidty | "@ + reading(c.humidity, ""@, "%"@, "--"@) + " "@
        + reading(c.dew_point, "(dew point: "@, " \u{b0}F)"@, ""@)
        + "\nwind | "@ + reading(c.wind_speed, ""@, " mph"@, "--"@) + " "@
        + reading(c.wind_direction, "from "@, "\u{b0}"@, ""@) + " "@
        + reading(c.wind_gust, "(gusts: "@, " mph)"@, ""@)
        + "\nuv index | "@ + match c.uv_index {
            Some(u) => crate::text::decimal(u as nat),
            None => "--"@,
        }
        + "\nair quality index | "@ + match c.air_quality {
            Some((i, cat)) => crate::text::signed_decimal(i as int) + " ("@ + cat@ + ")"@,
            None => "--"@,
        }
}

/// Writes the weather reply.
#[verifier::rlimit(50)]
pub fn weather_report(place: &str, c: &Conditions) -> (res: String)
    ensures
        res@ == weather_text(place@, *c),
{
    proof {
        reveal_strlit("");
    }
    let mut s = "weather in ".to_string();
    s.append(place);
    s.append("\ntemperature | ");
    s.append(text_with(c.temperature, "", " \u{b0}F", "--").as_str());
    s.append(" ");
    s.append(text_with(c.feels_like, "(feels like ", " \u{b0}F)", "").as_str());
    s.append("\nconditions | ");
    s.append(condition(c.weather_code));
    s.append("\nrelative humidty | ");
    s.append(text_with(c.humidity, "", "%", "--").as_str());
    s.append(" ");
    s.append(text_with(c.dew_point, "(dew point: ", " \u{b0}F)", "").as_str());
    s.append("\nwind | ");
    s.append(text_with(c.wind_speed, "", " mph", "--").as_str());
    s.append(" ");
    s.append(text_with(c.wind_direction, "from ", "\u{b0}", "").as_str());
    s.append(" ");
    s.append(text_with(c.wind_gust, "(gusts: ", " mph)", "").as_str());
    s.append("\nuv index | ");
    match c.uv_index {
        Some(u) => {
            let t = crate::text::u64_decimal(u as u64);
            s.append(t.as_str());
        },
        None => s.append("--"),
    }
    s.append("\nair quality index | ");
    match c.air_quality {
        Some((i, cat)) => {
            let t = crate::text::i64_decimal(i as i64);
            s.append(t.as_str());
            s.append(" (");
            s.append(cat);
            s.append(")");
        },
        None => s.append("--"),
    }
    s
}

/// An hour of the forecast, the readings already written as whole numbers;
/// the wind as its speed and compass point.
pub struct ForecastHour<'a> {
    pub time: &'a str,
    pub temperature: Option<&'a str>,
    pub humidity: Option<&'a str>,
    pub dew_point: Option<&'a str>,
    pub rain: Option<&'a str>,
    pub wind: Option<(&'a str, &'a str)>,
    pub uv_index: Option<u32>,
}

/// A forecast table row: each reading centred in its column.
pub open spec fn forecast_row_text(h: ForecastHour) -> Seq<char> {
    centred(h.time@, 6) + "|"@ + centred(reading(h.temperature, ""@, " \u{b0}F"@, "--"@), 8) + "|"@
        + centred(reading(h.humidity, ""@, "%"@, "--"@), 6) + "|"@
        + centred(reading(h.dew_point, ""@, " \u{b0}F"@, "--"@), 10) + "|"@
        + centred(reading(h.rain, ""@, "%"@, "--"@), 8) + "|"@
        + centred(match h.wind {
            Some((speed, point)) => left_aligned(speed@ + "mph"@, 5) + " "@ + point@,
            None => "--"@,
        }, 10) + "|"@
        + match h.uv_index {
            Some(u) => " "@ + crate::text::decimal(u as nat),
            None => " --"@,
        } + "\n"@
}

/// The forecast reply.
pub open spec fn forecast_text(place: Seq<char>, hours: Seq<ForecastHour>) -> Seq<char>
    decreases hours.len(),
{
    if hours.len() == 0 {
        "forecast for "@ + place
            + "\n``` Time |  Temp  |  RH  | Dewpoint |  Rain  |   Wind   | UV\n      |        |      |          |        |          |\n"@
    } else {
        forecast_text(place, hours.drop_last()) + forecast_row_text(hours.last())
    }
}

fn forecast_row(h: &ForecastHour) -> (res: String)
    ensures
        res@ == forecast_row_text(*h),
{
    proof {
        reveal_strlit("");
    }
    let mut s = centre(h.time, 6);
    s.append("|");
    s.append(centre(text_with(h.temperature, "", " \u{b0}F", "--").as_str(), 8).as_str());
    s.append("|");
    s.append(centre(text_with(h.humidity, "", "%", "--").as_str(), 6).as_str());
    s.append("|");
    s.append(centre(text_with(h.dew_point, "", " \u{b0}F", "--").as_str(), 10).as_str());
    s.append("|");
    s.append(centre(text_with(h.rain, "", "%", "--").as_str(), 8).as_str());
    s.append("|");
    let wind = match h.wind {
        Some((speed, point)) => {
            let mut w = speed.to_string();
            w.append("mph");
            let n = chars_of(w.as_str()).len();
            if n < 5 {
                push_spaces(&mut w, 5 - n);
            } else {
                assert(spaces(5 - n) =~= Seq::<char>::empty());
                assert(w@ =~= w@ + spaces(5 - n));
            }
            w.append(" ");
            w.append(point);
            w
        },
        None => "--".to_string(),
    };
    s.append(centre(wind.as_str(), 10).as_str());
    s.append("|");
    match h.uv_index {
        Some(u) => {
            s.append(" ");
            let t = crate::text::u64_decimal(u as u64);
            s.append(t.as_str());
        },
        None => s.append(" --"),
    }
    s.append("\n");
    s
}

/// Writes the forecast reply: a table of the hours, closed with "```".
pub fn forecast_report(place: &str, hours: &Vec<ForecastHour>) -> (res: String)
    ensures
        res@ == forecast_text(place@, hours@) + "```"@,
{
    let mut s = "forecast for ".to_string();
    s.append(place);
    s.append("\n``` Time |  Temp  |  RH  | Dewpoint |  Rain  |   Wind   | UV\n      |        |      |          |        |          |\n");
    let mut i: usize = 0;
    while i < hours.len()
        invariant
            i <= hours.len(),
            s@ == forecast_text(place@, hours@.take(i as int)),
        decreases hours.len() - i,
    {
        assert(hours@.take(i + 1).drop_last() =~= hours@.take(i as int));
        let row = forecast_row(&hours[i]);
        s.append(row.as_str());
        i = i + 1;
    }
    assert(hours@.take(hours.len() as int) =~= hours@);
    s.append("```");
    s
}

} // verus!
