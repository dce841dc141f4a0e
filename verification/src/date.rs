use vstd::arithmetic::div_mod::{
    lemma_div_denominator, lemma_div_is_ordered, lemma_fundamental_div_mod,
};
use vstd::prelude::*;

verus! {

/// A calendar date in the proleptic Gregorian calendar, the `date` column of
/// the CSV output.
#[derive(Clone, Copy, Debug, PartialEq, Eq, Structural)]
pub struct Date {
    pub year: i32,
    pub month: u8,
    pub day: u8,
}

pub open spec fn is_leap_year(y: int) -> bool {
    y % 4 == 0 && (y % 100 != 0 || y % 400 == 0)
}

pub open spec fn days_in_month(y: int, m: int) -> int {
    if m == 2 {
        if is_leap_year(y) {
            29
        } else {
            28
        }
    } else if m == 4 || m == 6 || m == 9 || m == 11 {
        30
    } else {
        31
    }
}

/// A date the CSV output can carry: a real calendar date with a four-digit
/// year.
pub open spec fn valid_date(d: Date) -> bool {
    &&& 0 <= d.year <= 9999
    &&& 1 <= d.month <= 12
    &&& 1 <= d.day <= days_in_month(d.year as int, d.month as int)
}

/// Leap years in `1..=y`, for `y >= 0`.
pub open spec fn leap_years_through(y: int) -> int {
    y / 4 - y / 100 + y / 400
}

/// Days from 0001-01-01 to `y`-01-01 in the proleptic Gregorian calendar.
pub open spec fn days_before_year(y: int) -> int {
    365 * (y - 1) + leap_years_through(y - 1)
}

/// Days from `y`-01-01 to `y`-`m`-01.
pub open spec fn days_before_month(y: int, m: int) -> int
    decreases m,
{
    if m <= 1 {
        0
    } else {
        days_before_month(y, m - 1) + days_in_month(y, m - 1)
    }
}

/// Day number of `d`, counted from 1970-01-01 as day 0; 719162 is the number
/// of days from 0001-01-01 to 1970-01-01.
pub open spec fn epoch_day_of(d: Date) -> int {
    days_before_year(d.year as int) + days_before_month(d.year as int, d.month as int) + (
    d.day as int - 1) - 719162
}

pub open spec fn days_in_year(y: int) -> int {
    if is_leap_year(y) {
        366
    } else {
        365
    }
}

proof fn lemma_day_of_year_bounds(y: int, m: int, d: int)
    requires
        1 <= m <= 12,
        1 <= d <= days_in_month(y, m),
    ensures
        0 <= days_before_month(y, m) + (d - 1) < days_in_year(y),
{
    reveal_with_fuel(days_before_month, 13);
}

proof fn lemma_month_determined(y: int, m1: int, d1: int, m2: int, d2: int)
    requires
        1 <= m1 <= 12,
        1 <= d1 <= days_in_month(y, m1),
        1 <= m2 <= 12,
        1 <= d2 <= days_in_month(y, m2),
        days_before_month(y, m1) + d1 == days_before_month(y, m2) + d2,
    ensures
        m1 == m2,
        d1 == d2,
{
    reveal_with_fuel(days_before_month, 13);
}

proof fn lemma_year_step(y: int)
    requires
        0 <= y,
    ensures
        days_before_year(y + 1) == days_before_year(y) + days_in_year(y),
{
    lemma_fundamental_div_mod(y, 4);
    lemma_fundamental_div_mod(y - 1, 4);
    lemma_fundamental_div_mod(y, 100);
    lemma_fundamental_div_mod(y - 1, 100);
    lemma_fundamental_div_mod(y, 400);
    lemma_fundamental_div_mod(y - 1, 400);
}

proof fn lemma_year_mono(y1: int, y2: int)
    requires
        0 <= y1 < y2,
    ensures
        days_before_year(y1) + days_in_year(y1) <= days_before_year(y2),
    decreases y2 - y1,
{
    lemma_year_step(y1);
    if y1 + 1 < y2 {
        lemma_year_mono(y1 + 1, y2);
    }
}

/// The day number determines the calendar date: `epoch_day_of` is injective
/// on valid dates, so a row's date is pinned by its timestamp's day count.
pub proof fn lemma_epoch_day_injective(d1: Date, d2: Date)
    requires
        valid_date(d1),
        valid_date(d2),
        epoch_day_of(d1) == epoch_day_of(d2),
    ensures
        d1 == d2,
{
    let y1 = d1.year as int;
    let y2 = d2.year as int;
    lemma_day_of_year_bounds(y1, d1.month as int, d1.day as int);
    lemma_day_of_year_bounds(y2, d2.month as int, d2.day as int);
    if y1 < y2 {
        lemma_year_mono(y1, y2);
        assert(false);
    } else if y2 < y1 {
        lemma_year_mono(y2, y1);
        assert(false);
    } else {
        lemma_month_determined(
            y1,
            d1.month as int,
            d1.day as int,
            d2.month as int,
            d2.day as int,
        );
    }
}

/// Unix seconds of 9999-12-31T23:59:59Z, the last second of the last date the
/// output format can carry.
pub const MAX_UNIX_SECONDS: i64 = 253402300799;

/// Unix milliseconds of 9999-12-31T23:59:59.999Z.
pub const MAX_TIMESTAMP_MS: i64 = 253402300799999;

/// Provider timestamps whose calendar date the output format can carry.
pub open spec fn valid_timestamp_ms(ms: int) -> bool {
    0 <= ms <= MAX_TIMESTAMP_MS
}

/// Relies on `time::OffsetDateTime::from_unix_timestamp` and
/// `time::Date::to_calendar_date`: the UTC calendar date of a count of
/// seconds since 1970-01-01T00:00:00Z.  The range up to `MAX_UNIX_SECONDS`
/// (the last second of year 9999) lies inside the range `time` supports, so
/// the conversion cannot fail there.
#[verifier::external_body]
fn civil_date_of_unix_seconds(secs: i64) -> (d: Date)
    requires
        0 <= secs <= MAX_UNIX_SECONDS,
    ensures
        valid_date(d),
        1970 <= d.year,
        epoch_day_of(d) == secs as int / 86400,
{
    let odt = time::OffsetDateTime::from_unix_timestamp(secs).unwrap();
    let (year, month, day) = odt.date().to_calendar_date();
    Date { year, month: month as u8, day }
}

/// The UTC calendar date of a provider timestamp in milliseconds, or `None`
/// where the timestamp lies outside the range the output format can carry
/// (before 1970, or after year 9999).
pub fn date_of_timestamp_ms(ms: i64) -> (r: Option<Date>)
    ensures
        r is Some <==> valid_timestamp_ms(ms as int),
        r matches Some(d) ==> valid_date(d) && 1970 <= d.year && epoch_day_of(d) == ms as int
            / 86400000,
{
    if ms < 0 || ms > MAX_TIMESTAMP_MS {
        return None;
    }
    let secs: i64 = ms / 1000;
    proof {
        lemma_div_is_ordered(ms as int, MAX_TIMESTAMP_MS as int, 1000);
        lemma_div_denominator(ms as int, 1000, 86400);
    }
    Some(civil_date_of_unix_seconds(secs))
}

} // verus!
