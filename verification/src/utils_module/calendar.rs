//! The proleptic Gregorian calendar as plain arithmetic, and the text of the
//! layouts in which dates and times are written.

use vstd::prelude::*;

verus! {

/// The first year a date can lie in.
pub const MIN_YEAR: i32 = -262143;

/// The last year a date can lie in.
pub const MAX_YEAR: i32 = 262142;

/// A year with 366 days.
pub open spec fn is_leap_year(year: int) -> bool {
    year % 4 == 0 && (year % 100 != 0 || year % 400 == 0)
}

/// The number of days of `month` in `year`; 0 for a month that does not exist.
pub open spec fn days_in_month(year: int, month: int) -> int {
    if month == 2 {
        if is_leap_year(year) {
            29
        } else {
            28
        }
    } else if month == 4 || month == 6 || month == 9 || month == 11 {
        30
    } else if 1 <= month <= 12 {
        31
    } else {
        0
    }
}

/// The day exists in the calendar and its year lies in the supported range.
pub open spec fn is_calendar_date(year: int, month: int, day: int) -> bool {
    &&& MIN_YEAR <= year <= MAX_YEAR
    &&& 1 <= month <= 12
    &&& 1 <= day <= days_in_month(year, month)
}

/// The time exists on a clock. A leap second is second 59 with a thousand
/// million nanoseconds or more.
pub open spec fn is_clock_time(hour: int, minute: int, second: int, nano: int) -> bool {
    &&& 0 <= hour < 24
    &&& 0 <= minute < 60
    &&& 0 <= second < 60
    &&& 0 <= nano < 2_000_000_000
    &&& nano >= 1_000_000_000 ==> second == 59
}

/// The decimal digit `d` as a character.
pub open spec fn digit_char(d: int) -> char {
    if d == 0 {
        '0'
    } else if d == 1 {
        '1'
    } else if d == 2 {
        '2'
    } else if d == 3 {
        '3'
    } else if d == 4 {
        '4'
    } else if d == 5 {
        '5'
    } else if d == 6 {
        '6'
    } else if d == 7 {
        '7'
    } else if d == 8 {
        '8'
    } else {
        '9'
    }
}

/// `v` in decimal, padded with zeros on the left to at least `width` digits.
pub open spec fn padded_digits(v: nat, width: nat) -> Seq<char>
    decreases v, width,
{
    if v < 10 && width <= 1 {
        seq![digit_char(v as int)]
    } else {
        padded_digits(
            v / 10,
            if width > 0 {
                (width - 1) as nat
            } else {
                0
            },
        ).push(digit_char((v % 10) as int))
    }
}

/// A value below 100 as two digits.
pub open spec fn two_digits(v: int) -> Seq<char> {
    seq![digit_char(v / 10), digit_char(v % 10)]
}

/// A year as text: four digits from 0 to 9999, otherwise a sign and at least
/// four digits.
pub open spec fn year_text(year: int) -> Seq<char> {
    if 0 <= year <= 9999 {
        padded_digits(year as nat, 4)
    } else if year < 0 {
        seq!['-'] + padded_digits((-year) as nat, 4)
    } else {
        seq!['+'] + padded_digits(year as nat, 4)
    }
}

/// A date as `YYYY-MM-DD`.
pub open spec fn dashed_date_text(year: int, month: int, day: int) -> Seq<char> {
    year_text(year) + seq!['-'] + two_digits(month) + seq!['-'] + two_digits(day)
}

/// A date and time of day as `YYYY-MM-DDTHH:MM:SSZ`.
pub open spec fn zulu_text(
    year: int,
    month: int,
    day: int,
    hour: int,
    minute: int,
    second: int,
) -> Seq<char> {
    dashed_date_text(year, month, day) + seq!['T'] + two_digits(hour) + seq![':'] + two_digits(
        minute,
    ) + seq![':'] + two_digits(second) + seq!['Z']
}

/// A date and time of day as fourteen or more digits, `YYYYMMDDHHMMSS`.
pub open spec fn compact_text(
    year: int,
    month: int,
    day: int,
    hour: int,
    minute: int,
    second: int,
) -> Seq<char> {
    year_text(year) + two_digits(month) + two_digits(day) + two_digits(hour) + two_digits(minute)
        + two_digits(second)
}

/// The month that lies `add` months after month `month` of `year`, as
/// `(year, month)`.
pub open spec fn shifted_month(year: int, month: int, add: int) -> (int, int) {
    let total = year * 12 + (month - 1) + add;
    (total / 12, total % 12 + 1)
}

/// A whole number in decimal, with a minus sign where it is negative.
pub open spec fn decimal_text(v: int) -> Seq<char> {
    if v < 0 {
        seq!['-'] + padded_digits((-v) as nat, 1)
    } else {
        padded_digits(v as nat, 1)
    }
}

/// What the failure of a date that does not exist says: the three numbers
/// that were asked for.
pub open spec fn invalid_date_text(year: int, month: int, day: int) -> Seq<char> {
    "Invalid date => year: "@ + decimal_text(year) + ", month: "@ + decimal_text(month)
        + ", day: "@ + decimal_text(day)
}

/// What the failure of a time of day that does not exist says: the three
/// numbers that were asked for.
pub open spec fn invalid_time_text(hour: int, min: int, sec: int) -> Seq<char> {
    "Invalid time => hour: "@ + decimal_text(hour) + ", min: "@ + decimal_text(min)
        + ", sec: "@ + decimal_text(sec)
}

} // verus!
