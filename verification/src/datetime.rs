//! Instants, intervals and the calendar rules beneath them.

pub mod decimal;
pub mod month;
pub mod timedelta;
pub mod utils;

pub use month::days_in_month;
pub use timedelta::TimeDelta;

use vstd::prelude::*;
use month::year_length;
use timedelta::{
    NANOSECONDS_PER_DAY, NANOSECONDS_PER_HOUR, NANOSECONDS_PER_MINUTE, NANOSECONDS_PER_SECOND,
};
use utils::{
    day_of_year, is_valid_year_month_day, leap_year, lemma_ordinal_day_bounds,
    lemma_ordinal_day_increases, ordinal_day, valid_date,
};

verus! {

/// The days of all the years before `year`, from year 1 on: 365 for each of
/// them, and one more for each fourth, but for each hundredth, and again for
/// each four-hundredth.
pub open spec fn days_before_year(year: int) -> int {
    let prev_year = year - 1;
    365 * prev_year + prev_year / 4 - prev_year / 100 + prev_year / 400
}

/// The days of all the years before `year`, added up year by year.
pub open spec fn days_in_years_before(year: int) -> int
    decreases year,
{
    if year <= 1 {
        0
    } else {
        days_in_years_before(year - 1) + year_length(leap_year(year - 1))
    }
}

/// The whole days between the first of January of year 1 and a date.
pub open spec fn days_since_epoch(year: int, month: int, day: int) -> int
    recommends
        valid_date(year, month, day),
{
    ordinal_day(year, month, day) - 1 + days_before_year(year)
}

/// An hour of 0 to 23, a minute of 0 to 59, and less than sixty seconds'
/// worth of nanoseconds.
pub open spec fn valid_time(hour: int, minute: int, second_nanos: int) -> bool {
    &&& 0 <= hour <= 23
    &&& 0 <= minute <= 59
    &&& 0 <= second_nanos < 60 * NANOSECONDS_PER_SECOND
}

/// The nanoseconds between midnight and a time of day.
pub open spec fn nanoseconds_since_midnight(hour: int, minute: int, second_nanos: int) -> int
    recommends
        valid_time(hour, minute, second_nanos),
{
    hour * NANOSECONDS_PER_HOUR + minute * NANOSECONDS_PER_MINUTE + second_nanos
}

/// The nanoseconds between the epoch, 0001-01-01 00:00:00, and a time of day
/// on a date.
pub open spec fn nanoseconds_since_epoch(
    year: int,
    month: int,
    day: int,
    hour: int,
    minute: int,
    second_nanos: int,
) -> int
    recommends
        valid_date(year, month, day),
        valid_time(hour, minute, second_nanos),
{
    days_since_epoch(year, month, day) * NANOSECONDS_PER_DAY + nanoseconds_since_midnight(
        hour,
        minute,
        second_nanos,
    )
}

/// The closed form counts the days of the years one by one.
pub proof fn lemma_days_before_year_adds_years(year: int)
    requires
        1 <= year,
    ensures
        days_before_year(year) == days_in_years_before(year),
    decreases year,
{
    if year > 1 {
        lemma_days_before_year_adds_years(year - 1);
    }
}

/// A year ends before any later year begins.
pub proof fn lemma_days_before_year_increases(year1: int, year2: int)
    requires
        1 <= year1 < year2,
    ensures
        days_before_year(year1) + year_length(leap_year(year1)) <= days_before_year(year2),
    decreases year2 - year1,
{
    if year1 + 1 < year2 {
        lemma_days_before_year_increases(year1, year2 - 1);
    }
}

/// Whether the first date comes before the second in the calendar.
pub open spec fn date_before(
    year1: int,
    month1: int,
    day1: int,
    year2: int,
    month2: int,
    day2: int,
) -> bool {
    year1 < year2 || (year1 == year2 && (month1 < month2 || (month1 == month2 && day1 < day2)))
}

/// Whether the first time of day comes before the second.
pub open spec fn time_before(
    hour1: int,
    minute1: int,
    second_nanos1: int,
    hour2: int,
    minute2: int,
    second_nanos2: int,
) -> bool {
    hour1 < hour2 || (hour1 == hour2 && (minute1 < minute2 || (minute1 == minute2
        && second_nanos1 < second_nanos2)))
}

/// The epoch is the instant from which the nanoseconds are counted.
pub proof fn lemma_epoch_is_zero()
    ensures
        valid_date(1, 1, 1),
        valid_time(0, 0, 0),
        nanoseconds_since_epoch(1, 1, 1, 0, 0, 0) == 0,
{
}

/// Of two dates the later one lies more days from the epoch, and none lies
/// before it.
pub proof fn lemma_days_since_epoch_increases(
    year1: int,
    month1: int,
    day1: int,
    year2: int,
    month2: int,
    day2: int,
)
    requires
        valid_date(year1, month1, day1),
        valid_date(year2, month2, day2),
        date_before(year1, month1, day1, year2, month2, day2),
    ensures
        0 <= days_since_epoch(year1, month1, day1) < days_since_epoch(year2, month2, day2),
{
    lemma_ordinal_day_bounds(year1, month1, day1);
    lemma_ordinal_day_bounds(year2, month2, day2);
    if year1 < year2 {
        lemma_days_before_year_increases(year1, year2);
    } else {
        lemma_ordinal_day_increases(year1, month1, day1, month2, day2);
    }
}

/// A time of day lies within its day, and of two times of day the later one
/// lies more nanoseconds from midnight.
pub proof fn lemma_nanoseconds_since_midnight_increases(
    hour1: int,
    minute1: int,
    second_nanos1: int,
    hour2: int,
    minute2: int,
    second_nanos2: int,
)
    requires
        valid_time(hour1, minute1, second_nanos1),
        valid_time(hour2, minute2, second_nanos2),
        time_before(hour1, minute1, second_nanos1, hour2, minute2, second_nanos2),
    ensures
        0 <= nanoseconds_since_midnight(hour1, minute1, second_nanos1) < nanoseconds_since_midnight(
            hour2,
            minute2,
            second_nanos2,
        ) < NANOSECONDS_PER_DAY,
{
}

/// Instants follow the calendar: of two dates with their times of day, the
/// one that comes later lies more nanoseconds from the epoch. So no two of
/// them name the same instant.
pub proof fn lemma_nanoseconds_since_epoch_increases(
    year1: int,
    month1: int,
    day1: int,
    hour1: int,
    minute1: int,
    second_nanos1: int,
    year2: int,
    month2: int,
    day2: int,
    hour2: int,
    minute2: int,
    second_nanos2: int,
)
    requires
        valid_date(year1, month1, day1),
        valid_time(hour1, minute1, second_nanos1),
        valid_date(year2, month2, day2),
        valid_time(hour2, minute2, second_nanos2),
        date_before(year1, month1, day1, year2, month2, day2) || (year1 == year2
            && month1 == month2 && day1 == day2
            && time_before(hour1, minute1, second_nanos1, hour2, minute2, second_nanos2)),
    ensures
        nanoseconds_since_epoch(year1, month1, day1, hour1, minute1, second_nanos1)
            < nanoseconds_since_epoch(year2, month2, day2, hour2, minute2, second_nanos2),
{
    if date_before(year1, month1, day1, year2, month2, day2) {
        lemma_days_since_epoch_increases(year1, month1, day1, year2, month2, day2);
    }
}

/// An instant in time.
pub struct DateTime {
    /// The time since the epoch, 0001-01-01 00:00:00.
    duration: TimeDelta,
}

impl View for DateTime {
    type V = int;

    /// An instant stands for the nanoseconds between the epoch and itself.
    closed spec fn view(&self) -> int {
        self.duration@
    }
}

impl DateTime {
    /// No instant lies before the epoch.
    #[verifier::type_invariant]
    spec fn wf(self) -> bool {
        0 <= self.duration@
    }

    /// The instant of a date and a time of day in the proleptic Gregorian
    /// calendar, or `None` where the date does not exist or the time of day
    /// is out of range. The seconds, with their fraction, are given in
    /// nanoseconds: `second_nanos` is less than sixty seconds' worth.
    pub fn gregorian(
        year: u64,
        month: u8,
        day: u8,
        hour: u8,
        minute: u8,
        second_nanos: i128,
    ) -> (instant: Option<Self>)
        ensures
            match instant {
                Some(t) => {
                    &&& valid_date(year as int, month as int, day as int)
                    &&& valid_time(hour as int, minute as int, second_nanos as int)
                    &&& t@ == nanoseconds_since_epoch(
                        year as int,
                        month as int,
                        day as int,
                        hour as int,
                        minute as int,
                        second_nanos as int,
                    )
                },
                None => !valid_date(year as int, month as int, day as int) || !valid_time(
                    hour as int,
                    minute as int,
                    second_nanos as int,
                ),
            },
    {
        if !is_valid_year_month_day(year as i128, month as i128, day as i128)
            || hour > 23
            || minute > 59
            || second_nanos < 0
            || second_nanos >= 60 * NANOSECONDS_PER_SECOND
        {
            return None;
        }

        // The whole days since the epoch: those of the years before this
        // one, and those of this year before the day.
        let prev_year: i128 = (year - 1) as i128;
        let doy: i128 = match day_of_year(year as i128, month as i128, day as i128) {
            Some(doy) => doy,
            None => {
                return None;
            },
        };
        proof {
            lemma_ordinal_day_bounds(year as int, month as int, day as int);
        }
        let abs_days: i128 = doy - 1 + 365 * prev_year + prev_year / 4 - prev_year / 100
            + prev_year / 400;

        Some(
            DateTime {
                duration: TimeDelta::new(
                    abs_days * NANOSECONDS_PER_DAY + hour as i128 * NANOSECONDS_PER_HOUR
                        + minute as i128 * NANOSECONDS_PER_MINUTE + second_nanos,
                ),
            },
        )
    }

    /// The time between the epoch and this instant.
    pub fn duration(&self) -> (elapsed: &TimeDelta)
        ensures
            elapsed@ == self@,
            0 <= elapsed@,
    {
        proof {
            use_type_invariant(self);
        }
        &self.duration
    }
}

} // verus!
