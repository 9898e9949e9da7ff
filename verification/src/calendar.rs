//! Days and timestamps. Dates are held as day numbers of the proleptic
//! Gregorian calendar, counted from 1 on the first of January of year 1; the
//! calendar itself is the `chrono` crate's, reached through the three trusted
//! functions of this module.

use chrono::Datelike;
use chrono::NaiveDate;
use chrono::TimeDelta;
use vstd::prelude::*;

verus! {

/// The day number of the first of January 1970.
pub const UNIX_EPOCH_DAY: i64 = 719_163;

/// The number of seconds of a day.
pub const SECONDS_PER_DAY: i64 = 86_400;

/// The day number of the first of January of year 0, the first day that the
/// contracts of this module speak of.
pub const FIRST_DAY: i32 = -365;

/// The day number of the last day of year 65535, the last day that the
/// contracts of this module speak of.
pub const LAST_DAY: i32 = 23_936_166;

/// The number of days from the first of January of year 1 up to the end of
/// the year before `year`: 365 for each year and one more for each leap year.
pub open spec fn days_before_year(year: int) -> int {
    let past = year - 1;
    365 * past + past / 4 - past / 100 + past / 400
}

/// The day number of the first of January of `year`.
pub open spec fn first_day_of_year(year: int) -> int {
    days_before_year(year) + 1
}

/// Whether a day number lies in the years 0 to 65535.
pub open spec fn in_calendar(day: int) -> bool {
    FIRST_DAY <= day <= LAST_DAY
}

/// The Unix timestamp, in seconds, of the given time of the given day in
/// UTC.
pub open spec fn timestamp_of(day: int, hour: int, minute: int, second: int) -> int {
    (day - UNIX_EPOCH_DAY) * SECONDS_PER_DAY + hour * 3600 + minute * 60 + second
}

/// Calls `chrono::NaiveDate::from_ymd_opt` and `chrono::Datelike::num_days_from_ce`
/// on the date it made. Trusted, and stated of the days of January only: in
/// the years 0 to 65535 the date exists, and its day number is the number of
/// days before its year plus its day of the month.
#[verifier::external_body]
pub(crate) fn day_number(year: i32, month: u32, day: u32) -> (number: Option<i32>)
    ensures
        0 <= year <= 65535 && month == 1 && 1 <= day <= 31 ==> number == Some(
            (days_before_year(year as int) + day) as i32,
        ),
{
    let date = NaiveDate::from_ymd_opt(year, month, day)?;
    Some(date.num_days_from_ce())
}

/// Calls `chrono::NaiveDate::checked_add_signed` on the date with the given
/// day number (`chrono::NaiveDate::from_num_days_from_ce_opt`) and a span of
/// whole days (`chrono::TimeDelta::try_days`), and takes the day number of
/// the sum (`chrono::Datelike::num_days_from_ce`). Trusted: while both the
/// day and the sum lie in the years 0 to 65535 the sum exists and its day
/// number is the sum of the numbers.
#[verifier::external_body]
pub(crate) fn add_days(day: i32, days: i64) -> (sum: Option<i32>)
    ensures
        in_calendar(day as int) && in_calendar(day + days) ==> sum == Some((day + days) as i32),
{
    let date = NaiveDate::from_num_days_from_ce_opt(day)?;
    let later = date.checked_add_signed(TimeDelta::try_days(days)?)?;
    Some(later.num_days_from_ce())
}

/// Calls `chrono::NaiveDate::and_hms_opt` on the date with the given day
/// number (`chrono::NaiveDate::from_num_days_from_ce_opt`), then
/// `chrono::NaiveDateTime::and_utc` and `chrono::DateTime::timestamp`.
/// Trusted: for a day in the years 0 to 65535 and a time of day that exists,
/// the result is the number of seconds from the start of 1970 in UTC to that
/// time of that day, with 86400 seconds to each day.
#[verifier::external_body]
pub(crate) fn utc_timestamp(day: i32, hour: u32, minute: u32, second: u32) -> (seconds: Option<i64>)
    ensures
        in_calendar(day as int) && hour < 24 && minute < 60 && second < 60 ==> seconds == Some(
            timestamp_of(day as int, hour as int, minute as int, second as int) as i64,
        ),
{
    let date = NaiveDate::from_num_days_from_ce_opt(day)?;
    let time = date.and_hms_opt(hour, minute, second)?;
    Some(time.and_utc().timestamp())
}

/// A year has 365 or 366 days.
pub proof fn lemma_year_length(year: int)
    ensures
        365 <= days_before_year(year + 1) - days_before_year(year) <= 366,
{
}

/// Later years start on later days.
pub proof fn lemma_years_in_order(earlier: int, later: int)
    requires
        earlier <= later,
    ensures
        first_day_of_year(later) - first_day_of_year(earlier) >= 365 * (later - earlier),
    decreases later - earlier,
{
    if earlier < later {
        lemma_years_in_order(earlier, later - 1);
        lemma_year_length(later - 1);
    }
}

/// Every day of a year that a `u16` can name lies in the calendar.
pub proof fn lemma_year_in_calendar(year: int)
    requires
        0 <= year <= 65535,
    ensures
        in_calendar(first_day_of_year(year)),
        in_calendar(first_day_of_year(year + 1) - 1),
        first_day_of_year(0) == FIRST_DAY,
        first_day_of_year(65536) - 1 == LAST_DAY,
        first_day_of_year(1970) == UNIX_EPOCH_DAY,
{
    lemma_years_in_order(0, year);
    lemma_years_in_order(year + 1, 65536);
}

} // verus!
