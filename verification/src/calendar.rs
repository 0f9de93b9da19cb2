//! The proleptic Gregorian calendar: which days exist, and how many days lie
//! between a day and the epoch.

use crate::timestamp::{DAY, MAX_LOCAL, MIN_LOCAL};
use vstd::prelude::*;

verus! {

/// A year with a 29th of February. Year 0 is one; so is every 400th year
/// before it.
pub open spec fn is_leap_year(year: int) -> bool {
    year % 4 == 0 && (year % 100 != 0 || year % 400 == 0)
}

/// How many days a month has.
pub open spec fn days_in_month(year: int, month: int) -> int {
    if month == 2 {
        if is_leap_year(year) {
            29
        } else {
            28
        }
    } else if month == 4 || month == 6 || month == 9 || month == 11 {
        30
    } else {
        31
    }
}

/// The calendar has this day.
pub open spec fn is_date(year: int, month: int, day: int) -> bool {
    1 <= month <= 12 && 1 <= day <= days_in_month(year, month)
}

/// Days from 1970-01-01 to a day, negative before it.
///
/// The year is counted from March, so that the leap day comes last; 400
/// years are 146097 days.
pub open spec fn days_from_epoch(year: int, month: int, day: int) -> int {
    let y = if month <= 2 {
        year - 1
    } else {
        year
    };
    let of_era = y % 400;
    let of_year = (153 * ((month + 9) % 12) + 2) / 5 + day - 1;
    (y / 400) * 146097 + of_era * 365 + of_era / 4 - of_era / 100 + of_year - 719468
}

/// Seconds from the epoch to 00:00:00 of a day, counted without regard to
/// any offset.
pub open spec fn civil_midnight(year: int, month: int, day: int) -> int {
    days_from_epoch(year, month, day) * DAY
}

/// The days of the years 0000 to 9999 are those whose seconds lie between
/// `MIN_LOCAL` and `MAX_LOCAL`.
pub proof fn lemma_four_digit_years(year: int, month: int, day: int)
    requires
        is_date(year, month, day),
    ensures
        0 <= year <= 9999 <==> MIN_LOCAL <= civil_midnight(year, month, day) <= MAX_LOCAL + 1 - DAY,
{
    let y = if month <= 2 {
        year - 1
    } else {
        year
    };
    let era = y / 400;
    let of_era = y % 400;
    let of_year = (153 * ((month + 9) % 12) + 2) / 5 + day - 1;
    let in_era = of_era * 365 + of_era / 4 - of_era / 100 + of_year;
    let before = of_era * 365 + of_era / 4 - of_era / 100;
    assert(0 <= of_era <= 399);
    assert(0 <= before <= 145_731);
    assert(of_era <= 398 ==> before <= 145_366);
    assert(of_era == 399 ==> before == 145_731);
    assert(month <= 2 ==> 306 <= of_year <= 365);
    assert(month >= 3 ==> 0 <= of_year <= 305);
    assert(days_from_epoch(year, month, day) == era * 146097 + before + of_year - 719468);
    assert(MIN_LOCAL as int == -719_528 * (DAY as int));
    assert(MAX_LOCAL + 1 == 2_932_897 * (DAY as int));
    if year < 0 {
        assert(era <= -1);
        assert(era == -1 && of_era == 399 ==> month >= 3);
    } else if year > 9999 {
        assert(era >= 24);
        assert(era == 24 ==> of_era == 399 && month <= 2);
    } else {
        assert(-1 <= era <= 24);
        assert(era == -1 ==> of_era == 399 && month <= 2);
        assert(era == 24 && of_era == 399 ==> month >= 3);
    }
}

} // verus!
