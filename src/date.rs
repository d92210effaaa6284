//! Calendar dates of the proleptic Gregorian calendar, held as year, month and day.
use vstd::prelude::*;

use chrono::{Datelike, Days, NaiveDate};

use crate::text::{append_decimal, decimal, digit_char, digit_of, push_char};

verus! {

pub open spec fn is_leap_year(y: int) -> bool {
    (y % 4 == 0 && y % 100 != 0) || y % 400 == 0
}

pub open spec fn days_in_month(y: int, m: int) -> int {
    if m == 2 {
        if is_leap_year(y) {
            29
        } else {
            28
        }
    } else if m == 4 || m == 6 || m == 9 || m == 11 {
        30
    } else {
        31
    }
}

/// The date exists in the calendar.
pub open spec fn valid_ymd(y: int, m: int, d: int) -> bool {
    1 <= m <= 12 && 1 <= d <= days_in_month(y, m)
}

/// Days from a fixed origin to the given date; consecutive dates have consecutive numbers.
/// Years are counted from March, so that a leap day ends its year.
pub open spec fn day_number(y: int, m: int, d: int) -> int {
    let yy = if m <= 2 {
        y - 1
    } else {
        y
    };
    let mp = if m > 2 {
        m - 3
    } else {
        m + 9
    };
    365 * yy + yy / 4 - yy / 100 + yy / 400 + (153 * mp + 2) / 5 + d - 1
}

/// A date with a year from 0 to 10002 (dates are read with four-digit years, and may then be
/// moved a few years on).
#[derive(Debug, Clone, Copy, PartialEq, Eq, PartialOrd, Ord, Hash)]
pub struct Date {
    year: i32,
    month: u32,
    day: u32,
}

impl Date {
    pub closed spec fn ymd(&self) -> (int, int, int) {
        (self.year as int, self.month as int, self.day as int)
    }

    pub open spec fn wf(&self) -> bool {
        &&& 0 <= self.ymd().0 <= 10002
        &&& valid_ymd(self.ymd().0, self.ymd().1, self.ymd().2)
    }

    pub open spec fn number(&self) -> int {
        day_number(self.ymd().0, self.ymd().1, self.ymd().2)
    }

    /// The date with these parts, if it exists.
    pub fn from_ymd_opt(year: i32, month: u32, day: u32) -> (r: Option<Date>)
        requires
            0 <= year <= 9999,
        ensures
            r is Some <==> valid_ymd(year as int, month as int, day as int),
            r matches Some(d) ==> d.wf() && d.ymd() == (year as int, month as int, day as int),
    {
        calendar_date(year, month, day)
    }

    pub fn year(&self) -> (r: i32)
        ensures
            r == self.ymd().0,
    {
        self.year
    }

    pub fn month(&self) -> (r: u32)
        ensures
            r == self.ymd().1,
    {
        self.month
    }

    pub fn day(&self) -> (r: u32)
        ensures
            r == self.ymd().2,
    {
        self.day
    }

    /// The date `days` days later.
    pub fn plus_days(&self, days: u32) -> (r: Date)
        requires
            self.wf(),
            self.ymd().0 <= 9999,
            days <= 1000,
        ensures
            r.wf(),
            r.number() == self.number() + days,
    {
        later_date(self, days).unwrap()
    }

    /// The date written `YYYY-MM-DD`.
    pub fn to_string(&self) -> (r: String)
        requires
            self.wf(),
        ensures
            r@ == date_text(self.ymd().0, self.ymd().1, self.ymd().2),
    {
        let y = self.year as u32;
        let mut r = String::new();
        if y <= 9999 {
            push_char(&mut r, digit_of(y / 1000));
            push_char(&mut r, digit_of(y / 100 % 10));
            push_char(&mut r, digit_of(y / 10 % 10));
            push_char(&mut r, digit_of(y % 10));
        } else {
            push_char(&mut r, '+');
            append_decimal(&mut r, y);
        }
        push_char(&mut r, '-');
        push_char(&mut r, digit_of(self.month / 10));
        push_char(&mut r, digit_of(self.month % 10));
        push_char(&mut r, '-');
        push_char(&mut r, digit_of(self.day / 10));
        push_char(&mut r, digit_of(self.day % 10));
        assert(r@ =~= date_text(self.ymd().0, self.ymd().1, self.ymd().2));
        r
    }
}

/// A year of four digits, padded with zeros; a later one with a `+` sign.
pub open spec fn year_text(y: int) -> Seq<char> {
    if y <= 9999 {
        seq![
            digit_char((y / 1000) as nat),
            digit_char((y / 100 % 10) as nat),
            digit_char((y / 10 % 10) as nat),
            digit_char((y % 10) as nat),
        ]
    } else {
        seq!['+'] + decimal(y as nat)
    }
}

/// A date as `YYYY-MM-DD`, month and day padded with zeros.
pub open spec fn date_text(y: int, m: int, d: int) -> Seq<char> {
    year_text(y) + seq![
        '-',
        digit_char((m / 10) as nat),
        digit_char((m % 10) as nat),
        '-',
        digit_char((d / 10) as nat),
        digit_char((d % 10) as nat),
    ]
}

/// Relies on chrono's `NaiveDate::from_ymd_opt`: for a year in its range it gives a date exactly
/// when the month is 1 to 12 and the day lies within that month of the proleptic Gregorian
/// calendar, and that date has the parts it was given.
#[verifier::external_body]
fn calendar_date(year: i32, month: u32, day: u32) -> (r: Option<Date>)
    requires
        0 <= year <= 9999,
    ensures
        r is Some <==> valid_ymd(year as int, month as int, day as int),
        r matches Some(d) ==> d.ymd() == (year as int, month as int, day as int),
{
    match NaiveDate::from_ymd_opt(year, month, day) {
        Some(d) => Some(Date { year: d.year(), month: d.month(), day: d.day() }),
        None => None,
    }
}

/// Relies on chrono's `NaiveDate::checked_add_days`: the date that many days later in the
/// proleptic Gregorian calendar (so in the same year or one of the next three, for at most a
/// thousand days), which for these years lies within chrono's range, so that a date is
/// returned.
#[verifier::external_body]
fn later_date(date: &Date, days: u32) -> (r: Option<Date>)
    requires
        date.wf(),
        date.ymd().0 <= 9999,
        days <= 1000,
    ensures
        r matches Some(e) ==> valid_ymd(e.ymd().0, e.ymd().1, e.ymd().2) && e.number()
            == date.number() + days && date.ymd().0 <= e.ymd().0 <= date.ymd().0 + 3,
        r is Some,
{
    match NaiveDate::from_ymd_opt(date.year, date.month, date.day) {
        Some(d) => match d.checked_add_days(Days::new(days as u64)) {
            Some(e) => Some(Date { year: e.year(), month: e.month(), day: e.day() }),
            None => None,
        },
        None => None,
    }
}

} // verus!
