//! The proleptic Gregorian calendar within the range of dates the bot's clock
//! library supports, and the month arithmetic the playtime window needs.

use vstd::prelude::*;
use chrono::Datelike;

verus! {

/// The last year a date may fall in.
pub const MAX_YEAR: i32 = 262142;

/// The first year a date may fall in.
pub const MIN_YEAR: i32 = -262143;

/// Whether `y` is a leap year.
pub open spec fn is_leap_year(y: int) -> bool {
    (y % 4 == 0 && y % 100 != 0) || y % 400 == 0
}

/// The number of days in month `m` (1 to 12) of year `y`.
pub open spec fn month_length(y: int, m: int) -> int {
    if m == 2 {
        if is_leap_year(y) { 29 } else { 28 }
    } else if m == 4 || m == 6 || m == 9 || m == 11 {
        30
    } else {
        31
    }
}

/// The number of days in year `y`.
pub open spec fn year_length(y: int) -> int {
    if is_leap_year(y) { 366 } else { 365 }
}

/// Days from 1 January of year 0 to 1 January of year `y` (negative before year 0).
pub open spec fn days_before_year(y: int) -> int {
    365 * y + (y + 3) / 4 - (y + 99) / 100 + (y + 399) / 400
}

/// Days from 1 January to the first of month `m` in year `y`.
pub open spec fn days_before_month(y: int, m: int) -> int
    decreases m,
{
    if m <= 1 {
        0
    } else {
        days_before_month(y, m - 1) + month_length(y, m - 1)
    }
}

/// The day number of day `d` of month `m` of year `y`, counted from 1 January of year 0;
/// `d` may run past the end of the month, continuing the count.
pub open spec fn day_number(y: int, m: int, d: int) -> int {
    days_before_year(y) + days_before_month(y, m) + d - 1
}

/// The month after month `m` of year `y`.
pub open spec fn next_month(y: int, m: int) -> (int, int) {
    if m == 12 { (y + 1, 1) } else { (y, m + 1) }
}

/// A date of the calendar.
#[derive(Debug, PartialEq, Eq, Structural, Clone, Copy)]
pub struct CivilDate {
    pub year: i32,
    /// 1 to 12.
    pub month: u32,
    /// 1 to the length of the month.
    pub day: u32,
}

impl CivilDate {
    /// The date as (year, month, day).
    pub open spec fn ymd(self) -> (int, int, int) {
        (self.year as int, self.month as int, self.day as int)
    }
}

/// Whether (y, m, d) names a day of the calendar in the supported range.
pub open spec fn valid_date(date: (int, int, int)) -> bool {
    &&& MIN_YEAR <= date.0 <= MAX_YEAR
    &&& 1 <= date.1 <= 12
    &&& 1 <= date.2 <= month_length(date.0, date.1)
}

/// The date as many days after `date` as `date`'s month has days: the same day
/// of the next month, or where that month is too short, the days beyond its end
/// counted into the month after.
pub open spec fn month_later(date: (int, int, int)) -> (int, int, int) {
    let (y2, m2) = next_month(date.0, date.1);
    if date.2 <= month_length(y2, m2) {
        (y2, m2, date.2)
    } else {
        let (y3, m3) = next_month(y2, m2);
        (y3, m3, date.2 - month_length(y2, m2))
    }
}

/// Moving `date` forward `n` times by the length of its current month: the total
/// number of days moved, or `None` where a step would leave the supported range
/// (the first of the next month, or the date reached, falling after the last year).
pub open spec fn months_forward(date: (int, int, int), n: nat) -> Option<int>
    decreases n,
{
    if n == 0 {
        Some(0)
    } else if next_month(date.0, date.1).0 > MAX_YEAR || month_later(date).0 > MAX_YEAR {
        None
    } else {
        match months_forward(month_later(date), (n - 1) as nat) {
            Some(rest) => Some(rest + month_length(date.0, date.1)),
            None => None,
        }
    }
}

proof fn lemma_div_step(a: int)
    ensures
        (a + 4) / 4 - (a + 3) / 4 == (if a % 4 == 0 { 1int } else { 0int }),
        (a + 100) / 100 - (a + 99) / 100 == (if a % 100 == 0 { 1int } else { 0int }),
        (a + 400) / 400 - (a + 399) / 400 == (if a % 400 == 0 { 1int } else { 0int }),
{
    vstd::arithmetic::div_mod::lemma_fundamental_div_mod(a + 4, 4);
    vstd::arithmetic::div_mod::lemma_fundamental_div_mod(a + 3, 4);
    vstd::arithmetic::div_mod::lemma_fundamental_div_mod(a, 4);
    vstd::arithmetic::div_mod::lemma_fundamental_div_mod(a + 100, 100);
    vstd::arithmetic::div_mod::lemma_fundamental_div_mod(a + 99, 100);
    vstd::arithmetic::div_mod::lemma_fundamental_div_mod(a, 100);
    vstd::arithmetic::div_mod::lemma_fundamental_div_mod(a + 400, 400);
    vstd::arithmetic::div_mod::lemma_fundamental_div_mod(a + 399, 400);
    vstd::arithmetic::div_mod::lemma_fundamental_div_mod(a, 400);
}

/// A year is as long as the days between its first day and the next year's.
pub proof fn lemma_year_length(y: int)
    ensures
        days_before_year(y + 1) - days_before_year(y) == year_length(y),
        days_before_month(y, 13) == year_length(y),
{
    lemma_div_step(y);
    reveal_with_fuel(days_before_month, 13);
}

/// Day `d` of the next month is as many days after day `d` of this month as
/// this month has days.
pub proof fn lemma_next_month_day_number(y: int, m: int, d: int)
    requires
        1 <= m <= 12,
    ensures
        day_number(next_month(y, m).0, next_month(y, m).1, d) == day_number(y, m, d) + month_length(y, m),
{
    lemma_year_length(y);
    if m == 12 {
        assert(days_before_month(y, 13) == days_before_month(y, 12) + month_length(y, 12));
    } else {
        assert(days_before_month(y, m + 1) == days_before_month(y, m) + month_length(y, m));
    }
}

/// A month later is as many days later as the month has days, and again a date.
pub proof fn lemma_month_later(date: (int, int, int))
    requires
        1 <= date.1 <= 12,
        1 <= date.2 <= month_length(date.0, date.1),
    ensures
        day_number(month_later(date).0, month_later(date).1, month_later(date).2)
            == day_number(date.0, date.1, date.2) + month_length(date.0, date.1),
        1 <= month_later(date).1 <= 12,
        1 <= month_later(date).2 <= month_length(month_later(date).0, month_later(date).1),
{
    let (y2, m2) = next_month(date.0, date.1);
    lemma_next_month_day_number(date.0, date.1, date.2);
    if date.2 > month_length(y2, m2) {
        lemma_next_month_day_number(y2, m2, 1);
        lemma_next_month_day_number(y2, m2, date.2 - month_length(y2, m2));
    }
}

fn step_month(year: i32, month: u32) -> (res: (i32, u32))
    requires
        1 <= month <= 12,
        year < MAX_YEAR + 2,
    ensures
        (res.0 as int, res.1 as int) == next_month(year as int, month as int),
{
    if month == 12 {
        (year + 1, 1)
    } else {
        (year, month + 1)
    }
}

/// The absolute value of `x`.
pub open spec fn magnitude(x: int) -> nat {
    if x < 0 { (-x) as nat } else { x as nat }
}

/// The month before month `m` of year `y`.
pub open spec fn previous_month(y: int, m: int) -> (int, int) {
    if m == 1 { (y - 1, 12) } else { (y, m - 1) }
}

/// The date as many days before `date` as the month before `date`'s month has
/// days: the same day of the previous month, or where that month is too short,
/// the days beyond its end counted into `date`'s own month.
pub open spec fn month_earlier(date: (int, int, int)) -> (int, int, int) {
    let (y0, m0) = previous_month(date.0, date.1);
    if date.2 <= month_length(y0, m0) {
        (y0, m0, date.2)
    } else {
        (date.0, date.1, date.2 - month_length(y0, m0))
    }
}

/// Moving `date` back `n` times by the length of the month before it: the total
/// number of days moved, or `None` where a step would leave the supported range
/// (the previous month falling before the first year).
pub open spec fn months_backward(date: (int, int, int), n: nat) -> Option<int>
    decreases n,
{
    if n == 0 {
        Some(0)
    } else if previous_month(date.0, date.1).0 < MIN_YEAR {
        None
    } else {
        let (y0, m0) = previous_month(date.0, date.1);
        match months_backward(month_earlier(date), (n - 1) as nat) {
            Some(rest) => Some(rest + month_length(y0, m0)),
            None => None,
        }
    }
}

/// The days that `months` months span from `date`: the days of that many
/// months counted forward where `months` is positive, and minus the days of
/// that many months counted back where it is negative.
pub open spec fn month_span(date: (int, int, int), months: int) -> Option<int> {
    if months >= 0 {
        months_forward(date, months as nat)
    } else {
        match months_backward(date, (-months) as nat) {
            Some(days) => Some(-days),
            None => None,
        }
    }
}

/// A month earlier is as many days earlier as the previous month has days, and
/// again a date.
pub proof fn lemma_month_earlier(date: (int, int, int))
    requires
        1 <= date.1 <= 12,
        1 <= date.2 <= month_length(date.0, date.1),
    ensures
        day_number(month_earlier(date).0, month_earlier(date).1, month_earlier(date).2)
            == day_number(date.0, date.1, date.2) - month_length(
            previous_month(date.0, date.1).0,
            previous_month(date.0, date.1).1,
        ),
        1 <= month_earlier(date).1 <= 12,
        1 <= month_earlier(date).2 <= month_length(month_earlier(date).0, month_earlier(date).1),
        month_earlier(date).0 >= date.0 - 1,
        month_earlier(date).0 <= date.0,
{
    let (y0, m0) = previous_month(date.0, date.1);
    assert(next_month(y0, m0) == (date.0, date.1));
    lemma_next_month_day_number(y0, m0, date.2);
    if date.2 > month_length(y0, m0) {
        lemma_next_month_day_number(y0, m0, date.2 - month_length(y0, m0));
    }
}

fn step_back(year: i32, month: u32) -> (res: (i32, u32))
    requires
        1 <= month <= 12,
        year > MIN_YEAR - 2,
    ensures
        (res.0 as int, res.1 as int) == previous_month(year as int, month as int),
{
    if month == 1 {
        (year - 1, 12)
    } else {
        (year, month - 1)
    }
}

/// Counts the days that `months` months span from `start`: for a positive count,
/// successive steps forward each add the length of the month the date is in;
/// for a negative count, successive steps back each take off the length of the
/// month before, and the days come out negative; `None` where the dates leave
/// the supported range.
pub fn months_to_days(start: CivilDate, months: i64) -> (res: Option<i64>)
    requires
        valid_date(start.ymd()),
    ensures
        match month_span(start.ymd(), months as int) {
            Some(days) => res is Some && res.unwrap() as int == days,
            None => res is None,
        },
        res matches Some(d) ==> (months >= 0 ==> 28 * months <= d <= 31 * months)
            && (months < 0 ==> 28 * (-months) <= -d <= 31 * (-months)),
{
    if months >= 0 {
        match months_forward_days(start, months as u64) {
            Some(d) => Some(d as i64),
            None => None,
        }
    } else {
        let n: u64 = if months == i64::MIN { 0x8000_0000_0000_0000u64 } else { (-months) as u64 };
        match months_backward_days(start, n) {
            Some(d) => Some(-(d as i64)),
            None => None,
        }
    }
}

/// The days from the first of month `m1` of `y1` to the first of month `m2` of
/// `y2`, with `chrono::NaiveDate::from_ymd_opt` and `signed_duration_since`:
/// claimed to exist exactly when both years are in the supported range, and to
/// be the difference of the day numbers.
#[verifier::external_body]
fn days_between_firsts(y1: i32, m1: u32, y2: i32, m2: u32) -> (res: Option<i64>)
    requires
        1 <= m1 <= 12,
        1 <= m2 <= 12,
    ensures
        res is Some <==> (MIN_YEAR <= y1 <= MAX_YEAR && MIN_YEAR <= y2 <= MAX_YEAR),
        res matches Some(n) ==> n == day_number(y2 as int, m2 as int, 1) - day_number(y1 as int, m1 as int, 1),
{
    let first = chrono::NaiveDate::from_ymd_opt(y1, m1, 1)?;
    let second = chrono::NaiveDate::from_ymd_opt(y2, m2, 1)?;
    Some(second.signed_duration_since(first).num_days())
}

/// The date `days` days after `date`, with `chrono::NaiveDate::checked_add_signed`:
/// claimed to be the date with that day number, and to exist exactly when that
/// day falls from 1 January of the first supported year to 31 December of the last.
#[verifier::external_body]
fn add_days(date: CivilDate, days: i64) -> (res: Option<CivilDate>)
    requires
        valid_date(date.ymd()),
        -31 <= days <= 31,
    ensures
        res matches Some(d) ==> valid_date(d.ymd()) && day_number(d.year as int, d.month as int, d.day as int)
            == day_number(date.year as int, date.month as int, date.day as int) + days,
        res is None <==> (day_number(date.year as int, date.month as int, date.day as int) + days < days_before_year(
            MIN_YEAR as int,
        ) || day_number(date.year as int, date.month as int, date.day as int) + days >= days_before_year(
            MAX_YEAR + 1,
        )),
{
    let start = chrono::NaiveDate::from_ymd_opt(date.year, date.month, date.day)?;
    let end = start.checked_add_signed(chrono::TimeDelta::try_days(days)?)?;
    Some(CivilDate { year: end.year(), month: end.month(), day: end.day() })
}

/// A day of the calendar lies in the supported range exactly when its day
/// number lies from that of the first supported day up to the last.
proof fn lemma_in_range(date: (int, int, int))
    requires
        1 <= date.1 <= 12,
        1 <= date.2 <= month_length(date.0, date.1),
    ensures
        date.0 <= MAX_YEAR <==> day_number(date.0, date.1, date.2) < days_before_year(MAX_YEAR + 1),
        date.0 >= MIN_YEAR <==> day_number(date.0, date.1, date.2) >= days_before_year(MIN_YEAR as int),
{
    lemma_day_in_year(date);
    if date.0 <= MAX_YEAR {
        lemma_years_ordered(date.0 + 1, MAX_YEAR + 1);
    } else {
        lemma_years_ordered(MAX_YEAR + 1, date.0);
    }
    if date.0 >= MIN_YEAR {
        lemma_years_ordered(MIN_YEAR as int, date.0);
    } else {
        lemma_years_ordered(date.0 + 1, MIN_YEAR as int);
    }
}

/// The days `n` steps forward move `start` (see `months_forward`).
fn months_forward_days(start: CivilDate, n: u64) -> (res: Option<u64>)
    requires
        valid_date(start.ymd()),
    ensures
        match months_forward(start.ymd(), n as nat) {
            Some(days) => res is Some && res.unwrap() as int == days,
            None => res is None,
        },
        res matches Some(d) ==> 28 * n <= d <= 31 * n,
        res matches Some(d) ==> d < 0x1_0000_0000,
{
    let ghost total: nat = n as nat;
    let mut left: u64 = n;
    let mut cur = start;
    let mut days: u64 = 0;
    let ghost mut taken: nat = 0;
    while left != 0
        invariant
            valid_date(cur.ymd()),
            MIN_YEAR <= start.year <= cur.year,
            total == n,
            total == taken + left,
            28 * taken <= days <= 31 * taken,
            taken <= 12 * (cur.year - start.year) + cur.month,
            months_forward(start.ymd(), total) == match months_forward(cur.ymd(), (total - taken) as nat) {
                Some(rest) => Some(rest + days),
                None => None::<int>,
            },
        decreases left,
    {
        let ghost k = (total - taken) as nat;
        let (y2, m2) = step_month(cur.year, cur.month);
        let len = match days_between_firsts(cur.year, cur.month, y2, m2) {
            Some(l) => l,
            None => {
                assert(months_forward(cur.ymd(), k) is None);
                return None;
            },
        };
        proof {
            lemma_next_month_day_number(cur.year as int, cur.month as int, 1);
            lemma_month_later(cur.ymd());
            lemma_in_range(month_later(cur.ymd()));
        }
        let next = match add_days(cur, len) {
            Some(d) => d,
            None => {
                assert(months_forward(cur.ymd(), k) is None);
                return None;
            },
        };
        proof {
            lemma_day_number_unique(next.ymd(), month_later(cur.ymd()));
            assert(months_forward(cur.ymd(), k) == match months_forward(next.ymd(), (k - 1) as nat) {
                Some(rest) => Some(rest + len),
                None => None::<int>,
            });
            assert(taken + 1 <= 12 * (next.year - start.year) + next.month);
            assert(31 * taken <= 31 * (12 * (MAX_YEAR - MIN_YEAR) + 12)) by (nonlinear_arith)
                requires
                    taken <= 12 * (cur.year - start.year) + cur.month,
                    cur.year <= MAX_YEAR,
                    MIN_YEAR <= start.year,
                    cur.month <= 12,
            ;
        }
        days = days + len as u64;
        cur = next;
        left = left - 1;
        proof {
            taken = taken + 1;
        }
    }
    assert(taken == n);
    assert(31 * taken <= 31 * (12 * (MAX_YEAR - MIN_YEAR) + 12)) by (nonlinear_arith)
        requires
            taken <= 12 * (cur.year - start.year) + cur.month,
            cur.year <= MAX_YEAR,
            MIN_YEAR <= start.year,
            cur.month <= 12,
    ;
    Some(days)
}

/// The days `n` steps back move `start` (see `months_backward`).
fn months_backward_days(start: CivilDate, n: u64) -> (res: Option<u64>)
    requires
        valid_date(start.ymd()),
    ensures
        match months_backward(start.ymd(), n as nat) {
            Some(days) => res is Some && res.unwrap() as int == days,
            None => res is None,
        },
        res matches Some(d) ==> 28 * n <= d <= 31 * n,
        res matches Some(d) ==> d < 0x1_0000_0000,
{
    let ghost total: nat = n as nat;
    let mut left: u64 = n;
    let mut cur = start;
    let mut days: u64 = 0;
    let ghost mut taken: nat = 0;
    while left != 0
        invariant
            valid_date(cur.ymd()),
            MIN_YEAR <= cur.year <= start.year <= MAX_YEAR,
            valid_date(start.ymd()),
            total == n,
            total == taken + left,
            28 * taken <= days <= 31 * taken,
            taken <= 2 * (12 * (start.year - cur.year) + start.month - cur.month) + (if cur.day <= 28 { 1int } else { 0int }),
            months_backward(start.ymd(), total) == match months_backward(cur.ymd(), (total - taken) as nat) {
                Some(rest) => Some(rest + days),
                None => None::<int>,
            },
        decreases left,
    {
        let ghost k = (total - taken) as nat;
        let (y0, m0) = step_back(cur.year, cur.month);
        let len0 = match days_between_firsts(y0, m0, cur.year, cur.month) {
            Some(l) => l,
            None => {
                assert(months_backward(cur.ymd(), k) is None);
                return None;
            },
        };
        proof {
            assert(next_month(y0 as int, m0 as int) == (cur.year as int, cur.month as int));
            lemma_next_month_day_number(y0 as int, m0 as int, 1);
            lemma_month_earlier(cur.ymd());
            lemma_in_range(month_earlier(cur.ymd()));
        }
        let next = match add_days(cur, -len0) {
            Some(d) => d,
            None => {
                assert(false);
                return None;
            },
        };
        proof {
            lemma_day_number_unique(next.ymd(), month_earlier(cur.ymd()));
            assert(months_backward(cur.ymd(), k) == match months_backward(next.ymd(), (k - 1) as nat) {
                Some(rest) => Some(rest + len0),
                None => None::<int>,
            });
            assert(taken + 1 <= 2 * (12 * (start.year - next.year) + start.month - next.month) + (if next.day <= 28 { 1int } else { 0int }));
            assert(31 * taken <= 31 * (24 * (MAX_YEAR - MIN_YEAR) + 25)) by (nonlinear_arith)
                requires
                    taken <= 2 * (12 * (start.year - cur.year) + start.month - cur.month) + 1,
                    start.year <= MAX_YEAR,
                    MIN_YEAR <= cur.year,
                    1 <= cur.month,
                    start.month <= 12,
            ;
        }
        days = days + len0 as u64;
        cur = next;
        left = left - 1;
        proof {
            taken = taken + 1;
        }
    }
    assert(taken == n);
    assert(31 * taken <= 31 * (24 * (MAX_YEAR - MIN_YEAR) + 25)) by (nonlinear_arith)
        requires
            taken <= 2 * (12 * (start.year - cur.year) + start.month - cur.month) + 1,
            start.year <= MAX_YEAR,
            MIN_YEAR <= cur.year,
            1 <= cur.month,
            start.month <= 12,
    ;
    Some(days)
}

/// The date `n` steps of a month's length after `date`.
pub open spec fn months_later(date: (int, int, int), n: nat) -> (int, int, int)
    decreases n,
{
    if n == 0 {
        date
    } else {
        months_later(month_later(date), (n - 1) as nat)
    }
}

/// The days counted for `n` months are the days between the date and the date
/// `n` months later.
pub proof fn lemma_months_forward_counts_days(date: (int, int, int), n: nat)
    requires
        1 <= date.1 <= 12,
        1 <= date.2 <= month_length(date.0, date.1),
    ensures
        months_forward(date, n) matches Some(k) ==> k == day_number(months_later(date, n).0, months_later(
            date,
            n,
        ).1, months_later(date, n).2) - day_number(date.0, date.1, date.2),
    decreases n,
{
    if n > 0 {
        lemma_month_later(date);
        lemma_months_forward_counts_days(month_later(date), (n - 1) as nat);
    }
}

/// Counting `a + b` months forward from `date` is counting `a` months, then `b`
/// more from the date reached: the days add up, and either both counts fail or
/// neither does; the date reached is again a date of the supported range.
pub proof fn lemma_months_forward_add(date: (int, int, int), a: nat, b: nat)
    requires
        valid_date(date),
    ensures
        months_forward(date, a + b) == match months_forward(date, a) {
            Some(x) => match months_forward(months_later(date, a), b) {
                Some(y) => Some(x + y),
                None => None::<int>,
            },
            None => None::<int>,
        },
        months_forward(date, a) is Some ==> valid_date(months_later(date, a)),
    decreases a,
{
    if a > 0 {
        if !(next_month(date.0, date.1).0 > MAX_YEAR || month_later(date).0 > MAX_YEAR) {
            lemma_month_later(date);
            let ml = month_later(date);
            assert(valid_date(ml));
            lemma_months_forward_add(ml, (a - 1) as nat, b);
            assert((a + b - 1) as nat == ((a - 1) as nat + b) as nat);
        }
    }
}

proof fn lemma_years_ordered(y1: int, y2: int)
    requires
        y1 <= y2,
    ensures
        days_before_year(y2) >= days_before_year(y1),
    decreases y2 - y1,
{
    if y1 < y2 {
        lemma_year_length(y2 - 1);
        lemma_years_ordered(y1, y2 - 1);
    }
}

proof fn lemma_months_ordered(y: int, m1: int, m2: int)
    requires
        1 <= m1 <= m2,
    ensures
        days_before_month(y, m2) >= days_before_month(y, m1),
    decreases m2 - m1,
{
    if m1 < m2 {
        lemma_months_ordered(y, m1, m2 - 1);
        assert(days_before_month(y, m2) == days_before_month(y, m2 - 1) + month_length(y, m2 - 1));
    }
}

proof fn lemma_day_in_year(date: (int, int, int))
    requires
        1 <= date.1 <= 12,
        1 <= date.2 <= month_length(date.0, date.1),
    ensures
        days_before_year(date.0) <= day_number(date.0, date.1, date.2) < days_before_year(date.0 + 1),
        days_before_month(date.0, date.1) <= days_before_month(date.0, date.1) + date.2 - 1 < days_before_month(
            date.0,
            date.1 + 1,
        ),
{
    lemma_year_length(date.0);
    assert(days_before_month(date.0, date.1 + 1) == days_before_month(date.0, date.1) + month_length(date.0, date.1));
    lemma_months_ordered(date.0, date.1 + 1, 13);
    lemma_months_ordered(date.0, 1, date.1);
}

/// Two dates of the calendar with the same day number are the same date.
pub proof fn lemma_day_number_unique(a: (int, int, int), b: (int, int, int))
    requires
        valid_date(a),
        valid_date(b),
        day_number(a.0, a.1, a.2) == day_number(b.0, b.1, b.2),
    ensures
        a == b,
{
    lemma_day_in_year(a);
    lemma_day_in_year(b);
    if a.0 < b.0 {
        lemma_years_ordered(a.0 + 1, b.0);
    }
    if b.0 < a.0 {
        lemma_years_ordered(b.0 + 1, a.0);
    }
    assert(a.0 == b.0);
    if a.1 < b.1 {
        lemma_months_ordered(a.0, a.1 + 1, b.1);
    }
    if b.1 < a.1 {
        lemma_months_ordered(a.0, b.1 + 1, a.1);
    }
    assert(a.1 == b.1);
}

} // verus!
