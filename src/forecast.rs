//! Weather requests: recognising them, choosing which forecast blocks to
//! leave out, and rendering the fields that the forecast holds.

use vstd::prelude::*;
use crate::text::{has_at, is_space, lit_at, space_char};

verus! {

#[derive(Clone, Copy, Debug, PartialEq, Eq, Structural)]
pub enum WeatherMode {
    Now,
    Today,
}

/// The text starts with the word `weather` in any mix of letter cases.
pub open spec fn starts_weather(s: Seq<char>) -> bool {
    &&& s.len() >= 7
    &&& s[0] == 'w' || s[0] == 'W'
    &&& s[1] == 'e' || s[1] == 'E'
    &&& s[2] == 'a' || s[2] == 'A'
    &&& s[3] == 't' || s[3] == 'T'
    &&& s[4] == 'h' || s[4] == 'H'
    &&& s[5] == 'e' || s[5] == 'E'
    &&& s[6] == 'r' || s[6] == 'R'
}

/// The mode of a weather request: the text starts with `weather` in any
/// letter case, one whitespace character and `now` or `today`.
pub open spec fn weather_mode_of(s: Seq<char>) -> Option<WeatherMode> {
    if s.len() >= 8 && starts_weather(s) && is_space(s[7]) {
        if lit_at(s, 8, "now"@) {
            Some(WeatherMode::Now)
        } else if lit_at(s, 8, "today"@) {
            Some(WeatherMode::Today)
        } else {
            None
        }
    } else {
        None
    }
}

fn letter_either(s: &str, i: usize, lower: char, upper: char) -> (r: bool)
    requires
        i < s@.len(),
    ensures
        r == (s@[i as int] == lower || s@[i as int] == upper),
{
    let c = s.get_char(i);
    c == lower || c == upper
}

fn weather_first(s: &str) -> (r: bool)
    ensures
        r == starts_weather(s@),
{
    s.unicode_len() >= 7 && letter_either(s, 0, 'w', 'W') && letter_either(s, 1, 'e', 'E')
        && letter_either(s, 2, 'a', 'A') && letter_either(s, 3, 't', 'T') && letter_either(
        s,
        4,
        'h',
        'H',
    ) && letter_either(s, 5, 'e', 'E') && letter_either(s, 6, 'r', 'R')
}

/// The mode of a weather request, or `None` where the message is not one.
pub fn weather_mode(text: &str) -> (r: Option<WeatherMode>)
    ensures
        r == weather_mode_of(text@),
{
    if text.unicode_len() < 8 {
        return None;
    }
    if !(weather_first(text) && space_char(text.get_char(7))) {
        return None;
    }
    if has_at(text, 8, "now") {
        Some(WeatherMode::Now)
    } else if has_at(text, 8, "today") {
        Some(WeatherMode::Today)
    } else {
        None
    }
}

/// Whether the message asks for the weather.
pub fn is_weather_request(text: &str) -> (r: bool)
    ensures
        r == weather_mode_of(text@) is Some,
{
    weather_mode(text).is_some()
}

/// The parts of a forecast that a request can leave out.
#[derive(Clone, Copy, Debug, PartialEq, Eq, Structural)]
pub enum ExcludeBlock {
    Currently,
    Minutely,
    Hourly,
    Daily,
    Alerts,
    Flags,
}

/// The blocks left out of a forecast: always the minute-by-minute data and
/// the flags; for the conditions now, the daily and hourly blocks too; for
/// today, the current conditions. Without a mode nothing else is left out.
pub open spec fn excluded_blocks(mode: Option<WeatherMode>) -> Seq<ExcludeBlock> {
    match mode {
        Some(WeatherMode::Now) => seq![
            ExcludeBlock::Minutely,
            ExcludeBlock::Flags,
            ExcludeBlock::Daily,
            ExcludeBlock::Hourly,
        ],
        Some(WeatherMode::Today) => seq![
            ExcludeBlock::Minutely,
            ExcludeBlock::Flags,
            ExcludeBlock::Currently,
        ],
        None => seq![ExcludeBlock::Minutely, ExcludeBlock::Flags],
    }
}

/// The blocks that a forecast request for this mode leaves out.
pub fn exclude_blocks(mode: Option<WeatherMode>) -> (r: Vec<ExcludeBlock>)
    ensures
        r@ == excluded_blocks(mode),
{
    let r = match mode {
        Some(WeatherMode::Now) => vec![
            ExcludeBlock::Minutely,
            ExcludeBlock::Flags,
            ExcludeBlock::Daily,
            ExcludeBlock::Hourly,
        ],
        Some(WeatherMode::Today) => vec![
            ExcludeBlock::Minutely,
            ExcludeBlock::Flags,
            ExcludeBlock::Currently,
        ],
        None => vec![ExcludeBlock::Minutely, ExcludeBlock::Flags],
    };
    assert(r@ =~= excluded_blocks(mode));
    r
}

/// The fields of a forecast that a reply shows, each already written as
/// text; the times of sunrise and sunset are Unix times.
#[derive(Clone, Debug, PartialEq, Eq)]
pub struct Forecast {
    pub alerts: Option<String>,
    pub current_summary: Option<String>,
    pub temperature: Option<String>,
    pub wind_gust: Option<String>,
    pub hourly_summary: Option<String>,
    pub high: Option<String>,
    pub low: Option<String>,
    pub sunrise: Option<i64>,
    pub sunset: Option<i64>,
}

/// A labelled line for a field that is present; nothing for one that is not.
pub open spec fn field_line(label: Seq<char>, v: Option<String>) -> Seq<char> {
    match v {
        Some(x) => label + x@ + "\n"@,
        None => Seq::empty(),
    }
}

pub open spec fn digit_text(d: int) -> Seq<char> {
    "0123456789"@.subrange(d, d + 1)
}

/// A number below one hundred in decimal, without leading zeros.
pub open spec fn number_text(n: int) -> Seq<char> {
    if n < 10 {
        digit_text(n)
    } else {
        digit_text(n / 10) + digit_text(n % 10)
    }
}

/// A twelve-hour clock time: hour modulo twelve, a colon, and the minute.
pub open spec fn clock_text(label: Seq<char>, clock: Option<(u32, u32)>, suffix: Seq<char>) -> Seq<
    char,
> {
    match clock {
        Some((h, m)) => label + number_text((h % 12) as int) + ":"@ + number_text(m as int) + suffix,
        None => Seq::empty(),
    }
}

/// The reply to a forecast: alerts, the current summary, temperature and wind
/// gust, the hourly summary, then the daily high, low, sunrise and sunset,
/// each on its own line and only where present.
pub open spec fn forecast_text(f: Forecast, sunrise: Option<(u32, u32)>, sunset: Option<(u32, u32)>) -> Seq<char> {
    field_line("Alerts: "@, f.alerts) + field_line("Curently: "@, f.current_summary) + field_line(
        "Temp: "@,
        f.temperature,
    ) + field_line("Wind gust: "@, f.wind_gust) + field_line("Today: "@, f.hourly_summary)
        + field_line("High: "@, f.high) + field_line("Low: "@, f.low) + clock_text(
        "Sunrise: "@,
        sunrise,
        " AM\n"@,
    ) + clock_text("Sunset: "@, sunset, " PM"@)
}

/// A clock time stands for a Unix time exactly where one is given, and
/// surely where chrono represents it.
pub open spec fn clock_for(t: Option<i64>, c: Option<(u32, u32)>) -> bool {
    match t {
        None => c is None,
        Some(u) => clock_in_range(u as int) ==> c is Some,
    }
}

pub open spec fn clock_ok(c: Option<(u32, u32)>) -> bool {
    c matches Some((h, m)) ==> m < 60
}

fn push_field(out: &mut String, label: &str, v: &Option<String>)
    ensures
        final(out)@ == old(out)@ + field_line(label@, *v),
{
    match v {
        Some(x) => {
            out.append(label);
            out.append(x.as_str());
            out.append("\n");
        },
        None => {
            assert(old(out)@ + field_line(label@, *v) =~= old(out)@);
        },
    }
}

fn push_number(out: &mut String, n: u32)
    requires
        n < 100,
    ensures
        final(out)@ == old(out)@ + number_text(n as int),
{
    let digits = "0123456789";
    proof {
        reveal_strlit("0123456789");
    }
    if n < 10 {
        out.append(digits.substring_char(n as usize, n as usize + 1));
    } else {
        let t = (n / 10) as usize;
        let u = (n % 10) as usize;
        out.append(digits.substring_char(t, t + 1));
        out.append(digits.substring_char(u, u + 1));
        assert(final(out)@ =~= old(out)@ + number_text(n as int));
    }
}

fn push_clock(out: &mut String, label: &str, clock: Option<(u32, u32)>, suffix: &str)
    requires
        clock_ok(clock),
    ensures
        final(out)@ == old(out)@ + clock_text(label@, clock, suffix@),
{
    match clock {
        Some((h, m)) => {
            out.append(label);
            push_number(out, h % 12);
            out.append(":");
            push_number(out, m);
            out.append(suffix);
            assert(final(out)@ =~= old(out)@ + clock_text(label@, clock, suffix@));
        },
        None => {
            assert(old(out)@ + clock_text(label@, clock, suffix@) =~= old(out)@);
        },
    }
}

/// The reply to a forecast, given the local clock times of sunrise and sunset.
pub fn render_forecast(f: &Forecast, sunrise: Option<(u32, u32)>, sunset: Option<(u32, u32)>) -> (r: String)
    requires
        clock_ok(sunrise),
        clock_ok(sunset),
    ensures
        r@ == forecast_text(*f, sunrise, sunset),
{
    let mut out = String::new();
    push_field(&mut out, "Alerts: ", &f.alerts);
    push_field(&mut out, "Curently: ", &f.current_summary);
    push_field(&mut out, "Temp: ", &f.temperature);
    push_field(&mut out, "Wind gust: ", &f.wind_gust);
    push_field(&mut out, "Today: ", &f.hourly_summary);
    push_field(&mut out, "High: ", &f.high);
    push_field(&mut out, "Low: ", &f.low);
    push_clock(&mut out, "Sunrise: ", sunrise, " AM\n");
    push_clock(&mut out, "Sunset: ", sunset, " PM");
    assert(out@ =~= forecast_text(*f, sunrise, sunset));
    out
}

/// The Unix times that chrono represents for certain: `from_timestamp`
/// fails only where the day number leaves `i32`.
pub open spec fn clock_in_range(t: int) -> bool {
    -8_000_000_000_000 <= t <= 8_000_000_000_000
}

/// Relies on chrono's `DateTime::from_timestamp`, `with_timezone(&Local)`,
/// `hour` and `minute`: the wall-clock hour and minute of a Unix time in the
/// machine's time zone, `None` only where chrono cannot represent the time.
#[verifier::external_body]
fn local_clock(unix_time: i64) -> (r: Option<(u32, u32)>)
    ensures
        r matches Some((h, m)) ==> h < 24 && m < 60,
        clock_in_range(unix_time as int) ==> r is Some,
{
    match chrono::DateTime::from_timestamp(unix_time, 0) {
        Some(utc) => {
            let local = utc.with_timezone(&chrono::Local);
            Some((chrono::Timelike::hour(&local), chrono::Timelike::minute(&local)))
        },
        None => None,
    }
}

fn clock_of(t: Option<i64>) -> (r: Option<(u32, u32)>)
    ensures
        clock_ok(r),
        t is None ==> r is None,
        clock_for(t, r),
{
    match t {
        Some(u) => local_clock(u),
        None => None,
    }
}

/// The reply to a forecast, with sunrise and sunset in the machine's time
/// zone. Which clock times appear depends on that zone; everything else is
/// as `render_forecast` gives it.
pub fn forecast_reply(f: &Forecast) -> (r: String)
    ensures
        exists|rise: Option<(u32, u32)>, set: Option<(u32, u32)>|
            clock_for(f.sunrise, rise) && clock_for(f.sunset, set) && r@ == forecast_text(
                *f,
                rise,
                set,
            ),
{
    let rise = clock_of(f.sunrise);
    let set = clock_of(f.sunset);
    render_forecast(f, rise, set)
}

pub const HELP_WEATHER: &'static str = "Weather examples:
    weather now
    weather today
    Powered by Dark Sky
    https://darksky.net/poweredby/";

/// How to ask for the weather.
pub fn help_weather() -> (r: &'static str)
    ensures
        r == HELP_WEATHER,
{
    HELP_WEATHER
}

} // verus!
