//! The start of a "recent playtime" window: a human duration such as
//! "2 months 3 days" read off a command argument and subtracted from now.

use vstd::prelude::*;
use crate::calendar::{day_number, lemma_day_number_unique, month_span, months_to_days, valid_date, CivilDate};
use crate::pattern::{captures, captures_view, group, group_of, regex_captures};
use crate::text::{parse_i64, parse_int, trim, trimmed};
use chrono::Datelike;

verus! {

/// The durations the command understands, each unit optionally plural, units
/// in any order and repeated, matched without regard to case.
pub const DURATION_PATTERN: &'static str = "(?i)(?:(?:(?:(\\d+)\\s+years?)|(?:(\\d+)\\s+months?)|(?:(\\d+)\\s+weeks?)|(?:(\\d+)\\s+days?)|(?:(\\d+)\\s+hours?)|(?:(\\d+)\\s+minutes?)|(?:(\\d+)\\s+seconds?))\\s?)+";

/// The largest time span, in whole seconds, the clock library represents
/// (`i64::MAX` milliseconds, rounded down to seconds).
pub const MAX_SPAN_SECS: i64 = 9_223_372_036_854_775;

/// The earliest instant the clock library represents, in nanoseconds since the
/// Unix epoch (1 January of the first supported year, midnight UTC).
pub const EARLIEST_NANOS: i128 = -8_334_601_228_800_000_000_000;

/// The latest instant the clock library represents, in nanoseconds since the
/// Unix epoch (the last nanosecond of 31 December of the last supported year).
pub const LATEST_NANOS: i128 = 8_210_266_876_799_999_999_999;

/// Seconds in each unit: years count as 365 days and months are counted day by
/// day separately, so the unit of the month amount is a day.
pub open spec fn unit_secs(i: int) -> int {
    if i == 0 {
        31_536_000
    } else if i == 1 {
        86400
    } else if i == 2 {
        604_800
    } else if i == 3 {
        86400
    } else if i == 4 {
        3600
    } else if i == 5 {
        60
    } else {
        1
    }
}

/// Taking `amounts[i] * unit_secs(i)` seconds off `t` in turn, for `i` from
/// `from` on: the instant reached, or `None` where a span or an instant on the
/// way leaves what the clock library represents.
pub open spec fn subtract_spans(t: int, amounts: Seq<int>, from: int) -> Option<int>
    decreases amounts.len() - from,
{
    if from >= amounts.len() || from < 0 {
        Some(t)
    } else {
        let secs = amounts[from] * unit_secs(from);
        let next = t - secs * 1_000_000_000;
        if secs < -MAX_SPAN_SECS || secs > MAX_SPAN_SECS || next < EARLIEST_NANOS || next > LATEST_NANOS {
            None
        } else {
            subtract_spans(next, amounts, from + 1)
        }
    }
}

/// Why no window start came out.
#[derive(Debug, PartialEq, Eq, Structural, Clone, Copy)]
pub enum WindowError {
    /// A number in the duration is not an `i64`.
    BadNumber,
    /// Counting the months' days left the supported dates ("date overflow").
    DateOverflow,
    /// A span, or the instant reached, is beyond what the clock library
    /// represents (where the bot's clock arithmetic gives up).
    OutOfRange,
}

/// The window start for the seven amounts (years, months, weeks, days, hours,
/// minutes, seconds) before `now`, whose calendar date is `today`.
pub open spec fn window_start_spec(now: int, today: (int, int, int), amounts: Seq<int>) -> Result<int, WindowError> {
    match month_span(today, amounts[1]) {
        None => Err(WindowError::DateOverflow),
        Some(month_days) => match subtract_spans(now, amounts.update(1, month_days), 0) {
            Some(t) => Ok(t),
            None => Err(WindowError::OutOfRange),
        },
    }
}

/// The instant `span` seconds before the instant `secs` seconds and `nsecs`
/// nanoseconds after the Unix epoch, with `chrono::DateTime::from_timestamp`,
/// `TimeDelta::try_seconds` and `checked_sub_signed`: claimed to fail exactly
/// where the span or the instant reached is beyond what the clock library
/// represents, and otherwise to be that instant (as seconds and nanoseconds).
#[verifier::external_body]
fn minus_seconds(secs: i64, nsecs: u32, span: i64) -> (res: Option<(i64, u32)>)
    requires
        nsecs < 1_000_000_000,
        EARLIEST_NANOS <= secs * 1_000_000_000 + nsecs <= LATEST_NANOS,
    ensures
        res is None <==> (span < -MAX_SPAN_SECS || span > MAX_SPAN_SECS
            || secs * 1_000_000_000 + nsecs - span * 1_000_000_000 < EARLIEST_NANOS
            || secs * 1_000_000_000 + nsecs - span * 1_000_000_000 > LATEST_NANOS),
        res matches Some((s, n)) ==> n < 1_000_000_000 && s * 1_000_000_000 + n == secs * 1_000_000_000 + nsecs
            - span * 1_000_000_000,
{
    let start = chrono::DateTime::from_timestamp(secs, nsecs)?;
    let end = start.checked_sub_signed(chrono::TimeDelta::try_seconds(span)?)?;
    Some((end.timestamp(), end.timestamp_subsec_nanos()))
}

fn subtract_span(t: i128, amount: i64, unit: i64) -> (res: Option<i128>)
    requires
        EARLIEST_NANOS <= t <= LATEST_NANOS,
        1 <= unit <= 365 * 86400,
    ensures
        match res {
            Some(n) => {
                let secs = amount * unit;
                &&& -MAX_SPAN_SECS <= secs <= MAX_SPAN_SECS
                &&& n == t - secs * 1_000_000_000
                &&& EARLIEST_NANOS <= n <= LATEST_NANOS
            },
            None => {
                let secs = amount * unit;
                secs < -MAX_SPAN_SECS || secs > MAX_SPAN_SECS
                    || t - secs * 1_000_000_000 < EARLIEST_NANOS
                    || t - secs * 1_000_000_000 > LATEST_NANOS
            },
        },
{
    let span = match amount.checked_mul(unit) {
        Some(s) => s,
        None => return None,
    };
    // the instant as whole seconds and nanoseconds, counted from the earliest
    // instant so that both parts are found by division of a number not negative
    let from_earliest: u128 = (t - EARLIEST_NANOS) as u128;
    let secs: i64 = (from_earliest / 1_000_000_000) as i64 + (EARLIEST_NANOS / 1_000_000_000) as i64;
    let nsecs: u32 = (from_earliest % 1_000_000_000) as u32;
    assert(secs * 1_000_000_000 + nsecs == t) by (nonlinear_arith)
        requires
            from_earliest == t - EARLIEST_NANOS,
            secs == from_earliest / 1_000_000_000 + EARLIEST_NANOS / 1_000_000_000,
            nsecs == from_earliest % 1_000_000_000,
            EARLIEST_NANOS % 1_000_000_000 == 0,
    ;
    match minus_seconds(secs, nsecs, span) {
        Some((s, n)) => Some(s as i128 * 1_000_000_000 + n as i128),
        None => None,
    }
}

/// Where the window starts: `now` less the given years (of 365 days), months
/// (the days that many months span from `today`, see `month_span`), weeks, days,
/// hours, minutes and seconds, taken off in that order.
pub fn window_start(now: i128, today: CivilDate, amounts: [i64; 7]) -> (res: Result<i128, WindowError>)
    requires
        EARLIEST_NANOS <= now <= LATEST_NANOS,
        valid_date(today.ymd()),
    ensures
        res == match window_start_spec(now as int, today.ymd(), amounts@.map_values(|a: i64| a as int)) {
            Ok(t) => Ok::<i128, WindowError>(t as i128),
            Err(e) => Err(e),
        },
{
    let ghost am = amounts@.map_values(|a: i64| a as int);
    assert(am[1] == amounts@[1] as int);
    let month_days = match months_to_days(today, amounts[1]) {
        Some(d) => d,
        None => return Err(WindowError::DateOverflow),
    };
    let units: [i64; 7] = [365 * 86400, 86400, 7 * 86400, 86400, 3600, 60, 1];
    let mut spans = amounts;
    spans[1] = month_days;
    let ghost sp = am.update(1, month_days as int);
    assert(spans@.map_values(|a: i64| a as int) =~= sp);
    let mut t: i128 = now;
    let mut i: usize = 0;
    while i < 7
        invariant
            0 <= i <= 7,
            EARLIEST_NANOS <= t <= LATEST_NANOS,
            spans@.len() == 7,
            spans@.map_values(|a: i64| a as int) == sp,
            sp.len() == 7,
            sp == am.update(1, month_days as int),
            am == amounts@.map_values(|a: i64| a as int),
            month_span(today.ymd(), am[1]) == Some(month_days as int),
            forall|k: int| 0 <= k < 7 ==> units@[k] == unit_secs(k),
            subtract_spans(now as int, sp, 0) == subtract_spans(t as int, sp, i as int),
        decreases 7 - i,
    {
        assert(units@[i as int] == unit_secs(i as int));
        assert(sp[i as int] == spans@[i as int] as int);
        match subtract_span(t, spans[i], units[i]) {
            Some(n) => {
                t = n;
            },
            None => {
                assert(subtract_spans(t as int, sp, i as int) is None);
                return Err(WindowError::OutOfRange);
            },
        }
        i = i + 1;
    }
    assert(subtract_spans(t as int, sp, 7) == Some(t as int));
    assert(month_span(today.ymd(), am[1]) == Some(month_days as int));
    assert(window_start_spec(now as int, today.ymd(), am) == Ok::<int, WindowError>(t as int));
    Ok(t)
}

/// The amount a capture group holds: 0 where the group did not take part, else
/// the number it spells (`None` where that is no `i64`).
pub open spec fn amount_of(g: Option<Seq<char>>) -> Option<int> {
    match g {
        None => Some(0),
        Some(s) => match parse_int(s, true) {
            Some(v) => if i64::MIN <= v <= i64::MAX { Some(v) } else { None },
            None => None,
        },
    }
}

/// Reads the seven amounts of a duration match (groups 1 to 7).
pub fn amounts_of(groups: &Vec<Option<String>>) -> (res: Option<[i64; 7]>)
    ensures
        match res {
            Some(a) => forall|i: int| 0 <= i < 7 ==>
                amount_of(group(captures_view(Some(*groups)).unwrap(), i + 1)) == Some(#[trigger] a@[i] as int),
            None => exists|i: int| 0 <= i < 7 &&
                amount_of(#[trigger] group(captures_view(Some(*groups)).unwrap(), i + 1)) is None,
        },
{
    let mut res: [i64; 7] = [0; 7];
    let mut i: usize = 0;
    while i < 7
        invariant
            0 <= i <= 7,
            res@.len() == 7,
            forall|k: int| i <= k < 7 ==> #[trigger] res@[k] == 0,
            forall|k: int| 0 <= k < i ==>
                amount_of(group(captures_view(Some(*groups)).unwrap(), k + 1)) == Some(#[trigger] res@[k] as int),
        decreases 7 - i,
    {
        match group_of(groups, i + 1) {
            None => {},
            Some(s) => match parse_i64(s.as_str()) {
                Some(v) => {
                    res[i] = v;
                },
                None => {
                    assert(amount_of(group(captures_view(Some(*groups)).unwrap(), i + 1)) is None);
                    return None;
                },
            },
        }
        i = i + 1;
    }
    Some(res)
}

/// Nanoseconds in a day.
pub const NANOS_PER_DAY: i64 = 86_400_000_000_000;

/// The calendar date, in UTC, of the instant `nanos` nanoseconds after the Unix
/// epoch: the date whose day number is that of 1 January 1970 plus the whole
/// days since then, counted down for instants before it.
pub open spec fn utc_date(nanos: int) -> (int, int, int) {
    choose|d: (int, int, int)| valid_date(d) && day_number(d.0, d.1, d.2) == day_number(1970, 1, 1) + nanos
        / (NANOS_PER_DAY as int)
}

/// The UTC date of an instant, from `chrono::DateTime::from_timestamp_nanos`
/// and `date_naive`: claimed to be a date of the supported range (every instant
/// an `i64` holds falls in it) as many days after 1 January 1970 as whole days
/// (rounded down) have passed since the epoch.
#[verifier::external_body]
fn utc_date_of(nanos: i64) -> (res: CivilDate)
    ensures
        valid_date(res.ymd()),
        day_number(res.year as int, res.month as int, res.day as int) == day_number(1970, 1, 1) + nanos
            / NANOS_PER_DAY,
{
    let d = chrono::DateTime::from_timestamp_nanos(nanos).date_naive();
    CivilDate { year: d.year(), month: d.month(), day: d.day() }
}

/// The seven amounts a duration match holds (groups 1 to 7), or `None` where
/// one of them is no `i64`.
pub open spec fn match_amounts(caps: Seq<Option<Seq<char>>>) -> Option<Seq<int>> {
    if forall|i: int| 0 <= i < 7 ==> (#[trigger] amount_of(group(caps, i + 1))) is Some {
        Some(Seq::new(7, |i: int| amount_of(group(caps, i + 1)).unwrap()))
    } else {
        None
    }
}

/// What the recent-playtime command makes of its duration argument at `now`
/// (nanoseconds since the epoch): `Ok(None)` where the trimmed argument holds
/// no duration, else the window start or why there is none.
pub open spec fn recent_start_spec(arg: Seq<char>, now: int) -> Result<Option<int>, WindowError> {
    match regex_captures(DURATION_PATTERN@, trimmed(arg)) {
        None => Ok(None),
        Some(caps) => match match_amounts(caps) {
            None => Err(WindowError::BadNumber),
            Some(amounts) => match window_start_spec(now, utc_date(now), amounts) {
                Ok(t) => Ok(Some(t)),
                Err(e) => Err(e),
            },
        },
    }
}

/// Reads the recent-playtime duration argument and gives the window start.
pub fn recent_start(arg: &str, now: i64) -> (res: Result<Option<i128>, WindowError>)
    ensures
        res == match recent_start_spec(arg@, now as int) {
            Ok(Some(t)) => Ok::<Option<i128>, WindowError>(Some(t as i128)),
            Ok(None) => Ok(None),
            Err(e) => Err(e),
        },
{
    let text = trim(arg);
    let caps = match captures(DURATION_PATTERN, text.as_str()) {
        None => return Ok(None),
        Some(c) => c,
    };
    let ghost cv = captures_view(Some(caps)).unwrap();
    let amounts = match amounts_of(&caps) {
        None => {
            assert(match_amounts(cv) is None);
            return Err(WindowError::BadNumber);
        },
        Some(a) => a,
    };
    proof {
        assert forall|i: int| 0 <= i < 7 implies (#[trigger] amount_of(group(cv, i + 1))) is Some by {
            assert(amount_of(group(cv, i + 1)) == Some(amounts@[i] as int));
        }
        assert(match_amounts(cv).unwrap() =~= amounts@.map_values(|a: i64| a as int));
    }
    let today = utc_date_of(now);
    proof {
        lemma_day_number_unique(today.ymd(), utc_date(now as int));
    }
    match window_start(now as i128, today, amounts) {
        Ok(t) => Ok(Some(t)),
        Err(e) => Err(e),
    }
}

/// The seconds in the unit written after capture group `k` of the duration
/// pattern: years (of 365 days), weeks, days, hours, minutes and seconds, in the
/// order the pattern names them (group 2, months, is counted by the calendar).
pub open spec fn seconds_per_group(k: int) -> int {
    if k == 1 {
        365int * 24 * 60 * 60
    } else if k == 3 {
        7int * 24 * 60 * 60
    } else if k == 4 {
        24int * 60 * 60
    } else if k == 5 {
        60int * 60
    } else if k == 6 {
        60
    } else {
        1
    }
}

/// A duration that names one unit takes that many of that unit off now: "N
/// minutes" starts the window N minutes before now, "N seconds" N seconds
/// before, and so on for years, weeks, days and hours; "N months" starts it the
/// days of N months (counted from today) before now. Within the instants the
/// clock library represents.
pub proof fn lemma_duration_units(arg: Seq<char>, now: int, caps: Seq<Option<Seq<char>>>, k: int, n: int, days: int)
    requires
        regex_captures(DURATION_PATTERN@, trimmed(arg)) == Some(caps),
        1 <= k <= 7,
        amount_of(group(caps, k)) == Some(n),
        forall|j: int| 1 <= j <= 7 && j != k ==> #[trigger] group(caps, j) is None,
        EARLIEST_NANOS <= now <= LATEST_NANOS,
        k == 2 ==> month_span(utc_date(now), n) == Some(days),
    ensures
        ({
            let secs = if k == 2 { days * (24int * 60 * 60) } else { n * seconds_per_group(k) };
            -MAX_SPAN_SECS <= secs <= MAX_SPAN_SECS && EARLIEST_NANOS <= now - secs * 1_000_000_000 <= LATEST_NANOS
                ==> recent_start_spec(arg, now) == Ok::<Option<int>, WindowError>(Some(now - secs * 1_000_000_000))
        }),
{
    assert(forall|j: int| 1 <= j <= 7 && j != k ==> amount_of(#[trigger] group(caps, j)) == Some(0int));
    assert forall|i: int| 0 <= i < 7 implies (#[trigger] amount_of(group(caps, i + 1))) is Some by {
        if i + 1 != k {
            assert(group(caps, i + 1) is None);
        }
    }
    let amounts = match_amounts(caps).unwrap();
    assert(amounts.len() == 7);
    assert forall|i: int| 0 <= i < 7 && i != k - 1 implies amounts[i] == 0 by {
        assert(group(caps, i + 1) is None);
    }
    assert(amounts[k - 1] == n);
    reveal_with_fuel(subtract_spans, 8);
    reveal_with_fuel(crate::calendar::months_forward, 1);
}

} // verus!
