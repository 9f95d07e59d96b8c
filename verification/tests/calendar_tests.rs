use rustyz::calendar::{months_to_days, CivilDate, MAX_YEAR};
use rustyz::window::{recent_start, window_start, WindowError};

fn date(year: i32, month: u32, day: u32) -> CivilDate {
    CivilDate { year, month, day }
}

#[test]
fn month_lengths() {
    // one month from the first of a month is that month's length
    assert_eq!(months_to_days(date(2024, 2, 1), 1), Some(29));
    assert_eq!(months_to_days(date(2023, 2, 1), 1), Some(28));
    assert_eq!(months_to_days(date(1900, 2, 1), 1), Some(28));
    assert_eq!(months_to_days(date(2000, 2, 1), 1), Some(29));
    assert_eq!(months_to_days(date(2023, 4, 1), 1), Some(30));
    assert_eq!(months_to_days(date(2023, 12, 1), 1), Some(31));
    assert_eq!(months_to_days(date(-4, 2, 1), 1), Some(29));
    assert_eq!(months_to_days(date(-100, 2, 1), 1), Some(28));
}

#[test]
fn months_counted_day_by_day() {
    assert_eq!(months_to_days(date(2024, 1, 31), 0), Some(0));
    assert_eq!(months_to_days(date(2024, 1, 31), 1), Some(31));
    // the last day of January plus 31 days lands in March, so February is skipped
    assert_eq!(months_to_days(date(2024, 1, 31), 2), Some(62));
    assert_eq!(months_to_days(date(2023, 1, 31), 3), Some(92));
    assert_eq!(months_to_days(date(2024, 1, 15), 1), Some(31));
    assert_eq!(months_to_days(date(2024, 2, 10), 1), Some(29));
}

#[test]
fn negative_months_count_back() {
    // back from 31 January: 31 December (31 days), then 1 December (November's 30)
    assert_eq!(months_to_days(date(2024, 1, 31), -2), Some(-61));
    assert_eq!(months_to_days(date(2024, 3, 15), -1), Some(-29));
    assert_eq!(months_to_days(date(2023, 3, 15), -1), Some(-28));
    assert_eq!(months_to_days(date(2023, 6, 1), -12), Some(-365));
    assert_eq!(months_to_days(date(2024, 6, 1), -12), Some(-366));
    assert_eq!(months_to_days(date(-262143, 1, 31), -1), None);
    assert_eq!(months_to_days(date(-262143, 2, 10), -1), Some(-31));
    assert_eq!(months_to_days(date(2024, 1, 1), i64::MIN), None);
}

#[test]
fn months_add_up() {
    // 2 + 3 months from 31 January 2024: 2 months reach 2 April (62 days)
    let two = months_to_days(date(2024, 1, 31), 2).unwrap();
    let three_more = months_to_days(date(2024, 4, 2), 3).unwrap();
    assert_eq!(months_to_days(date(2024, 1, 31), 5), Some(two + three_more));
}

#[test]
fn months_past_the_last_year_fail() {
    assert_eq!(months_to_days(date(MAX_YEAR, 12, 1), 1), None);
    assert_eq!(months_to_days(date(MAX_YEAR, 11, 15), 1), Some(30));
    assert_eq!(months_to_days(date(2024, 1, 1), i64::MAX), None);
}

const JAN_15_2024: i64 = 1_705_276_800 * 1_000_000_000;
const DAY: i128 = 86_400 * 1_000_000_000;

#[test]
fn window_start_subtracts_each_unit() {
    let now = JAN_15_2024 as i128;
    assert_eq!(window_start(now, date(2024, 1, 15), [0, 0, 0, 1, 0, 0, 0]), Ok(now - DAY));
    assert_eq!(window_start(now, date(2024, 1, 15), [1, 1, 1, 1, 1, 1, 1]),
        Ok(now - (365 + 31 + 7 + 1) * DAY - 3_661 * 1_000_000_000));
    assert_eq!(window_start(now, date(2024, 1, 15), [0, 0, 0, 0, 0, 0, -5]), Ok(now + 5_000_000_000));
    assert_eq!(window_start(now, date(2024, 1, 15), [9_999_999_999, 0, 0, 0, 0, 0, 0]), Err(WindowError::OutOfRange));
    assert_eq!(window_start(now, date(2024, 1, 15), [0, 999_999_999, 0, 0, 0, 0, 0]), Err(WindowError::DateOverflow));
}

#[test]
fn recent_playtime_durations() {
    let now = JAN_15_2024;
    assert_eq!(recent_start("2 days", now), Ok(Some(now as i128 - 2 * DAY)));
    assert_eq!(recent_start("  1 Month  ", now), Ok(Some(now as i128 - 31 * DAY)));
    assert_eq!(recent_start("1 week 3 hours", now), Ok(Some(now as i128 - 7 * DAY - 3 * 3_600_000_000_000)));
    assert_eq!(recent_start("nonsense", now), Ok(None));
    assert_eq!(recent_start("99999999999999999999 days", now), Err(WindowError::BadNumber));
    assert_eq!(recent_start("9999999999 years", now), Err(WindowError::OutOfRange));
    assert_eq!(recent_start("999999999 months", now), Err(WindowError::DateOverflow));
}
