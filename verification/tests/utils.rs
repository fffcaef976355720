use astro_carta::datetime::utils::{
    day_of_year, is_leap_year, is_valid_year, is_valid_year_month, is_valid_year_month_day,
    MAX_YEAR,
};

#[test]
fn leap_year_test() {
    assert_eq!(is_leap_year(2020), true);
    assert_eq!(is_leap_year(1900), false);
    assert_eq!(is_leap_year(2000), true);
    assert_eq!(is_leap_year(2024), true);
    assert_eq!(is_leap_year(2021), false);
}

#[test]
fn is_valid_year_test() {
    assert_eq!(is_valid_year(2024), true);
    assert_eq!(is_valid_year(0), false);
    assert_eq!(is_valid_year(100_000_000_001), false);
}

#[test]
fn is_valid_year_month_test() {
    assert_eq!(is_valid_year_month(2024, 1), true);
    assert_eq!(is_valid_year_month(2024, 12), true);
    assert_eq!(is_valid_year_month(2024, 0), false);
    assert_eq!(is_valid_year_month(2024, 13), false);
    assert_eq!(is_valid_year_month(0, 12), false);
    assert_eq!(is_valid_year_month(100_000_000_001, 12), false);
}

#[test]
fn is_valid_year_month_day_test() {
    assert_eq!(is_valid_year_month_day(2024, 3, 1), true);
    assert_eq!(is_valid_year_month_day(2024, 2, 29), true);
    assert_eq!(is_valid_year_month_day(2023, 2, 29), false);
    assert_eq!(is_valid_year_month_day(2023, 2, 28), true);
    assert_eq!(is_valid_year_month_day(2024, 3, 31), true);
    assert_eq!(is_valid_year_month_day(2024, 3, 32), false);
    assert_eq!(is_valid_year_month_day(2024, 3, 0), false);
    assert_eq!(is_valid_year_month_day(2024, 13, 1), false);
    assert_eq!(is_valid_year_month_day(2024, -1, 1), false);
    assert_eq!(is_valid_year_month_day(0, 3, 1), false);
    assert_eq!(is_valid_year_month_day(100_000_000_001, 3, 1), false);
}

#[test]
fn day_of_year_test() {
    assert_eq!(day_of_year(2024, 3, 16), Some(76));
    assert_eq!(day_of_year(2023, 2, 29), None);
    assert_eq!(day_of_year(2024, 2, 29), Some(60));
    assert_eq!(day_of_year(2023, 12, 31), Some(365));
    assert_eq!(day_of_year(2024, 12, 31), Some(366));
    assert_eq!(day_of_year(2024, 13, 1), None);
    assert_eq!(day_of_year(2024, 1, 32), None);
    assert_eq!(day_of_year(-1, 3, 13), None);
}

#[test]
fn leap_year_rule_holds_of_negative_years_too() {
    assert_eq!(is_leap_year(0), true);
    assert_eq!(is_leap_year(-4), true);
    assert_eq!(is_leap_year(-1), false);
    assert_eq!(is_leap_year(-100), false);
    assert_eq!(is_leap_year(-400), true);
    assert_eq!(is_leap_year(-2000), true);
    assert_eq!(is_leap_year(-1900), false);
    assert_eq!(is_leap_year(i128::MIN), true);
    assert_eq!(is_leap_year(i128::MAX), false);
}

#[test]
fn valid_years_run_from_one_to_the_last() {
    assert_eq!(MAX_YEAR, 100_000_000_000);
    assert_eq!(is_valid_year(1), true);
    assert_eq!(is_valid_year(MAX_YEAR), true);
    assert_eq!(is_valid_year(-1), false);
    assert_eq!(is_valid_year(i128::MIN), false);
    assert_eq!(is_valid_year(i128::MAX), false);
    assert_eq!(is_valid_year_month(1, 1), true);
    assert_eq!(is_valid_year_month(MAX_YEAR, 12), true);
    assert_eq!(is_valid_year_month(2024, -1), false);
    assert_eq!(is_valid_year_month(2024, 256), false);
    assert_eq!(is_valid_year_month(2024, 257), false);
}

#[test]
fn a_month_beyond_a_byte_is_no_month() {
    // 257 would be January if it were cut down to eight bits.
    assert_eq!(is_valid_year_month_day(2024, 257, 1), false);
    assert_eq!(is_valid_year_month_day(2024, 258, 29), false);
    assert_eq!(day_of_year(2024, 257, 1), None);
    assert_eq!(day_of_year(2024, 1, 257), None);
    assert_eq!(day_of_year(2024, 1, -1), None);
    assert_eq!(day_of_year(2024, 1, 0), None);
}

#[test]
fn century_years_have_a_leap_day_only_every_four_hundred() {
    assert_eq!(is_valid_year_month_day(1900, 2, 29), false);
    assert_eq!(is_valid_year_month_day(2000, 2, 29), true);
    assert_eq!(is_valid_year_month_day(2100, 2, 29), false);
    assert_eq!(is_valid_year_month_day(2024, 2, 30), false);
    assert_eq!(is_valid_year_month_day(2024, 4, 31), false);
    assert_eq!(is_valid_year_month_day(2024, 4, 30), true);
}

#[test]
fn day_of_year_counts_every_day_once() {
    for year in [2023i128, 2024, 1900, 2000] {
        let mut expected: i128 = 0;
        for month in 1i128..=12 {
            for day in 1i128..=31 {
                if is_valid_year_month_day(year, month, day) {
                    expected += 1;
                    assert_eq!(day_of_year(year, month, day), Some(expected));
                } else {
                    assert_eq!(day_of_year(year, month, day), None);
                }
            }
        }
        assert_eq!(expected, if is_leap_year(year) { 366 } else { 365 });
    }
}

#[test]
fn day_of_year_at_the_ends_of_the_range() {
    assert_eq!(day_of_year(1, 1, 1), Some(1));
    assert_eq!(day_of_year(MAX_YEAR, 12, 31), Some(366));
    assert_eq!(day_of_year(MAX_YEAR + 1, 1, 1), None);
    assert_eq!(day_of_year(0, 12, 31), None);
}
