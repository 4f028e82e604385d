//! The day of the week of a date in the Gregorian calendar.
//!
//! Days are numbered from Sunday, which is 0, to Saturday, which is 6. The
//! calendar is proleptic: its rules are applied to every year from year 1 on,
//! also to those before it came into use.

use vstd::prelude::*;

verus! {

/// The place of a month in a list of twelve: `month - 1` for the months 1 to
/// 12. A month outside that range is not refused: it wraps around the year.
pub open spec fn month_slot(month: int) -> int {
    (month - 1) % 12
}

/// The offset that the formula of the week day adds for the month in `slot`.
pub open spec fn month_offset(slot: int) -> int
    recommends
        0 <= slot < 12,
{
    seq![0int, 3, 2, 5, 0, 3, 5, 1, 4, 6, 2, 4][slot]
}

/// The day of the week of the date: the year is taken back by one for January
/// and February, and then
/// `(y + y/4 - y/100 + y/400 + offset(month) + day) mod 7`.
pub open spec fn day_of_week(year: int, month: int, day: int) -> int {
    let y = if month < 3 {
        year - 1
    } else {
        year
    };
    (y + y / 4 - y / 100 + y / 400 + month_offset(month_slot(month)) + day) % 7
}

/// A leap year of the Gregorian calendar.
pub open spec fn is_leap_year(year: int) -> bool {
    year % 4 == 0 && (year % 100 != 0 || year % 400 == 0)
}

/// The number of days of a year.
pub open spec fn days_in_year(year: int) -> int {
    if is_leap_year(year) {
        366
    } else {
        365
    }
}

/// The number of days of a month of a year.
pub open spec fn days_in_month(year: int, month: int) -> int
    recommends
        1 <= month <= 12,
{
    if month == 2 {
        if is_leap_year(year) {
            29
        } else {
            28
        }
    } else if month == 4 || month == 6 || month == 9 || month == 11 {
        30
    } else {
        31
    }
}

/// The number of days of the years from year 1 up to, not including, `year`.
pub open spec fn days_before_year(year: int) -> int
    decreases year,
{
    if year <= 1 {
        0
    } else {
        days_before_year(year - 1) + days_in_year(year - 1)
    }
}

/// The number of days of the months of `year` before `month`.
pub open spec fn days_before_month(year: int, month: int) -> int
    decreases month,
{
    if month <= 1 {
        0
    } else {
        days_before_month(year, month - 1) + days_in_month(year, month - 1)
    }
}

/// The number of a day, counted from 1 January of year 1, which is day 1 and
/// was a Monday.
pub open spec fn day_number(year: int, month: int, day: int) -> int {
    days_before_year(year) + days_before_month(year, month) + day
}

/// The leap years below a year, counted by the rule of the calendar.
proof fn lemma_days_before_year(year: int)
    requires
        year >= 1,
    ensures
        days_before_year(year) == 365 * (year - 1) + (year - 1) / 4 - (year - 1) / 100 + (year
            - 1) / 400,
    decreases year,
{
    if year > 1 {
        lemma_days_before_year(year - 1);
    }
}

/// The days before each month, in a year that is a leap year or not.
proof fn lemma_days_before_month(year: int, month: int)
    requires
        1 <= month <= 12,
    ensures
        days_before_month(year, month) == seq![
            0int,
            31,
            59,
            90,
            120,
            151,
            181,
            212,
            243,
            273,
            304,
            334,
        ][month - 1] + if month > 2 && is_leap_year(year) {
            1int
        } else {
            0int
        },
    decreases month,
{
    if month > 1 {
        lemma_days_before_month(year, month - 1);
    }
}

/// The week day is a number from 0 to 6.
pub proof fn lemma_day_of_week_range(year: int, month: int, day: int)
    ensures
        0 <= day_of_week(year, month, day) < 7,
        0 <= month_slot(month) < 12,
        1 <= month <= 12 ==> month_slot(month) == month - 1,
{
}

/// The formula gives the week day of the calendar: for every date from year
/// 1 on, it is the number of the day, counted from Monday 1 January of year
/// 1, taken modulo 7. The day of the month may lie outside the month: it is
/// then counted on into the months that follow or back into those before.
pub proof fn lemma_day_of_week_is_calendar_day(year: int, month: int, day: int)
    requires
        year >= 1,
        1 <= month <= 12,
    ensures
        day_of_week(year, month, day) == day_number(year, month, day) % 7,
{
    lemma_days_before_year(year);
    lemma_days_before_month(year, month);
}

/// 29 October 2019 was a Tuesday: Sunday is 0.
pub proof fn lemma_known_tuesday()
    ensures
        day_of_week(2019, 10, 29) == 2,
        day_number(2019, 10, 29) % 7 == 2,
{
    lemma_day_of_week_is_calendar_day(2019, 10, 29);
}

/// The day after a date falls on the next day of the week.
pub proof fn lemma_next_day(year: int, month: int, day: int)
    ensures
        day_of_week(year, month, day + 1) == (day_of_week(year, month, day) + 1) % 7,
{
}

/// The place of a month in a list of twelve.
pub fn month_index(month: usize) -> (slot: usize)
    ensures
        slot == month_slot(month as int),
        slot < 12,
        1 <= month <= 12 ==> slot == month - 1,
{
    (month % 12 + 11) % 12
}

fn offset_of(slot: usize) -> (offset: usize)
    requires
        slot < 12,
    ensures
        offset == month_offset(slot as int),
        offset < 7,
{
    if slot == 0 {
        0
    } else if slot == 1 {
        3
    } else if slot == 2 {
        2
    } else if slot == 3 {
        5
    } else if slot == 4 {
        0
    } else if slot == 5 {
        3
    } else if slot == 6 {
        5
    } else if slot == 7 {
        1
    } else if slot == 8 {
        4
    } else if slot == 9 {
        6
    } else if slot == 10 {
        2
    } else {
        4
    }
}

/// A sum may be reduced modulo 7 term by term.
proof fn lemma_reduce_terms(y: int, a: int, b: int, c: int, t: int, d: int)
    ensures
        (y % 7 + a % 7 + (7 - b % 7) + c % 7 + t + d % 7) % 7 == (y + a - b + c + t + d) % 7,
{
}

/// The day of the week of a date, from 0 for Sunday to 6 for Saturday.
///
/// No date is refused and no sum overflows: each term is reduced modulo 7
/// before it is added.
pub fn get_day_of_week(year: usize, month: usize, day: usize) -> (weekday: usize)
    ensures
        weekday == day_of_week(year as int, month as int, day as int),
        weekday < 7,
{
    let offset = offset_of(month_index(month));
    if month < 3 && year == 0 {
        proof {
            lemma_reduce_terms(0, 5, 0, 0, offset as int, day as int);
        }
        (5 + offset + day % 7) % 7
    } else {
        let y = if month < 3 {
            year - 1
        } else {
            year
        };
        let by_4 = y / 4;
        let by_100 = y / 100;
        let by_400 = y / 400;
        proof {
            lemma_reduce_terms(
                y as int,
                by_4 as int,
                by_100 as int,
                by_400 as int,
                offset as int,
                day as int,
            );
        }
        (y % 7 + by_4 % 7 + (7 - by_100 % 7) + by_400 % 7 + offset + day % 7) % 7
    }
}

} // verus!
