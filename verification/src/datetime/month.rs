//! Lengths of the twelve months and the days that precede each of them.

use vstd::prelude::*;

verus! {

/// Months are numbered from 1 (January) to 12 (December).
pub open spec fn valid_month(month: int) -> bool {
    1 <= month <= 12
}

/// The number of days of a month: 30 for April, June, September and November,
/// 28 or 29 for February, 31 for the others.
pub open spec fn month_length(month: int, leap: bool) -> int
    recommends
        valid_month(month),
{
    if month == 2 {
        if leap {
            29
        } else {
            28
        }
    } else if month == 4 || month == 6 || month == 9 || month == 11 {
        30
    } else {
        31
    }
}

/// The number of days of the year that lie before the first day of `month`:
/// the lengths of the months 1 to `month - 1`, added up.
pub open spec fn days_before_month(month: int, leap: bool) -> int
    recommends
        valid_month(month),
    decreases month,
{
    if month <= 1 {
        0
    } else {
        days_before_month(month - 1, leap) + month_length(month - 1, leap)
    }
}

/// The length of a year in days.
pub open spec fn year_length(leap: bool) -> int {
    if leap {
        366
    } else {
        365
    }
}

/// Nothing lies before January, each month ends where the next begins, and
/// December ends with the year.
pub proof fn lemma_days_before_month_adds_lengths(month: int, leap: bool)
    requires
        valid_month(month),
    ensures
        days_before_month(1, leap) == 0,
        month < 12 ==> days_before_month(month, leap) + month_length(month, leap)
            == days_before_month(month + 1, leap),
        month == 12 ==> days_before_month(month, leap) + month_length(month, leap) == year_length(
            leap,
        ),
{
    reveal_with_fuel(days_before_month, 13);
}

/// Every month lies within the year.
pub proof fn lemma_days_before_month_bounds(month: int, leap: bool)
    requires
        valid_month(month),
    ensures
        0 <= days_before_month(month, leap),
        days_before_month(month, leap) + month_length(month, leap) <= year_length(leap),
{
    reveal_with_fuel(days_before_month, 13);
}

/// The number of days in `month`, or `None` where `month` is not one of 1 to 12.
pub fn days_in_month(month: u8, is_leap_year: bool) -> (days: Option<u8>)
    ensures
        match days {
            Some(n) => valid_month(month as int) && n == month_length(month as int, is_leap_year),
            None => !valid_month(month as int),
        },
        days matches Some(n) ==> 28 <= n <= 31,
{
    let days_in_month: u8 = match month {
        1 | 3 | 5 | 7 | 8 | 10 | 12 => 31,
        2 => 28,
        4 | 6 | 9 | 11 => 30,
        _ => return None,
    };

    if month == 2 && is_leap_year {
        Some(days_in_month + 1)
    } else {
        Some(days_in_month)
    }
}

/// The number of days of the year that have passed before the first day of
/// `month`, or `None` where `month` is not one of 1 to 12.
pub fn cummulative_days_for_month(month: u8, is_leap_year: bool) -> (days: Option<u16>)
    ensures
        match days {
            Some(n) => valid_month(month as int) && n == days_before_month(
                month as int,
                is_leap_year,
            ),
            None => !valid_month(month as int),
        },
{
    if month < 1 || month > 12 {
        return None;
    }
    proof {
        reveal_with_fuel(days_before_month, 13);
    }

    if is_leap_year {
        let cummulative_days_all: [u16; 12] = [0, 31, 60, 91, 121, 152, 182, 213, 244, 274, 305, 335];
        Some(cummulative_days_all[month as usize - 1])
    } else {
        let cummulative_days_all: [u16; 12] = [0, 31, 59, 90, 120, 151, 181, 212, 243, 273, 304, 334];
        Some(cummulative_days_all[month as usize - 1])
    }
}

} // verus!
