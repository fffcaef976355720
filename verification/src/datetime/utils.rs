//! Validity rules for civil calendar fields and the day-of-year ordinal.

use vstd::prelude::*;
use super::month::{
    cummulative_days_for_month, days_before_month, days_in_month, lemma_days_before_month_bounds,
    month_length, valid_month, year_length,
};

verus! {

/// The last year the calendar accepts. The first is year 1.
pub const MAX_YEAR: i128 = 100_000_000_000;

/// The leap-year rule of the proleptic Gregorian calendar, applied to every
/// integer alike: each fourth year, but for the centuries not divisible by 400.
pub open spec fn leap_year(year: int) -> bool {
    (year % 4 == 0 && year % 100 != 0) || year % 400 == 0
}

/// The years 1 to `MAX_YEAR`.
pub open spec fn valid_year(year: int) -> bool {
    1 <= year <= MAX_YEAR
}

/// A valid year together with a month of 1 to 12.
pub open spec fn valid_year_month(year: int, month: int) -> bool {
    valid_year(year) && valid_month(month)
}

/// A day that exists: a valid year and month, and a day from 1 to the length
/// that the month has in that year.
pub open spec fn valid_date(year: int, month: int, day: int) -> bool {
    &&& valid_year_month(year, month)
    &&& 1 <= day <= month_length(month, leap_year(year))
}

/// The place of a day within its year, counted from 1 for the first of January.
pub open spec fn ordinal_day(year: int, month: int, day: int) -> int
    recommends
        valid_date(year, month, day),
{
    day + days_before_month(month, leap_year(year))
}

/// The ordinal of a valid date lies within its year.
pub proof fn lemma_ordinal_day_bounds(year: int, month: int, day: int)
    requires
        valid_date(year, month, day),
    ensures
        1 <= ordinal_day(year, month, day) <= year_length(leap_year(year)),
{
    lemma_days_before_month_bounds(month, leap_year(year));
}

/// Within one year a later date has a larger ordinal, so that no two dates
/// of a year share one.
pub proof fn lemma_ordinal_day_increases(year: int, month1: int, day1: int, month2: int, day2: int)
    requires
        valid_date(year, month1, day1),
        valid_date(year, month2, day2),
        month1 < month2 || (month1 == month2 && day1 < day2),
    ensures
        ordinal_day(year, month1, day1) < ordinal_day(year, month2, day2),
{
    reveal_with_fuel(days_before_month, 13);
}

/// Whether `year` is a leap year.
pub fn is_leap_year(year: i128) -> (leap: bool)
    ensures
        leap == leap_year(year as int),
{
    let fourth: bool = (year % 4) == 0;
    assert(fourth == (year as int % 4 == 0));
    let hundredth: bool = (year % 100) == 0;
    assert(hundredth == (year as int % 100 == 0));
    let four_hundredth: bool = (year % 400) == 0;
    assert(four_hundredth == (year as int % 400 == 0));
    (fourth && !hundredth) || four_hundredth
}

/// Whether `year` is one of the years 1 to `MAX_YEAR`.
pub fn is_valid_year(year: i128) -> (valid: bool)
    ensures
        valid == valid_year(year as int),
{
    if year < 1 || year > MAX_YEAR {
        return false;
    }

    true
}

/// Whether `year` is valid and `month` is one of 1 to 12.
pub fn is_valid_year_month(year: i128, month: i128) -> (valid: bool)
    ensures
        valid == valid_year_month(year as int, month as int),
{
    if !is_valid_year(year) {
        return false;
    }

    if month < 1 || month > 12 {
        return false;
    }

    true
}

/// Whether the three fields name a day that exists.
pub fn is_valid_year_month_day(year: i128, month: i128, day: i128) -> (valid: bool)
    ensures
        valid == valid_date(year as int, month as int, day as int),
{
    if !is_valid_year_month(year, month) {
        return false;
    }

    let is_leap_year: bool = is_leap_year(year);
    if day < 1 {
        return false;
    }

    if let Some(days_in_month) = days_in_month(month as u8, is_leap_year) {
        if day > days_in_month as i128 {
            return false;
        }
    } else {
        return false;
    }

    return true;
}

/// The ordinal of the day within its year, or `None` where the three fields
/// name no day that exists.
pub fn day_of_year(year: i128, month: i128, day: i128) -> (ordinal: Option<i128>)
    ensures
        match ordinal {
            Some(n) => valid_date(year as int, month as int, day as int) && n == ordinal_day(
                year as int,
                month as int,
                day as int,
            ),
            None => !valid_date(year as int, month as int, day as int),
        },
{
    if !is_valid_year_month_day(year, month, day) {
        return None;
    }

    let is_leap_year: bool = is_leap_year(year);
    if let Some(cumul_days) = cummulative_days_for_month(month as u8, is_leap_year) {
        Some(day + cumul_days as i128)
    } else {
        None
    }
}

} // verus!
