//! Calendar dates and instants, as plain values.
//!
//! A `Date` is a day of the proleptic Gregorian calendar; a `Timestamp` is an
//! instant counted from the Unix epoch. Calendar arithmetic is done by
//! `chrono`, behind the two wrappers at the end of this file.

use vstd::prelude::*;
use crate::model::{Duplicate, Same};

verus! {

/// The first and the last year that `chrono` can hold.
pub const MIN_YEAR: i32 = -262143;

pub const MAX_YEAR: i32 = 262142;

pub const SECONDS_PER_DAY: i64 = 86400;

pub const NANOS_PER_SECOND: i64 = 1000000000;

#[derive(Clone, Copy, Debug, PartialEq, Eq, Structural)]
pub struct Date {
    pub year: i32,
    pub month: u32,
    pub day: u32,
}

pub open spec fn is_leap_year(year: int) -> bool {
    year % 4 == 0 && (year % 100 != 0 || year % 400 == 0)
}

pub open spec fn days_in_month(year: int, month: int) -> int {
    if month == 2 {
        if is_leap_year(year) {
            29
        } else {
            28
        }
    } else if month == 4 || month == 6 || month == 9 || month == 11 {
        30
    } else {
        31
    }
}

/// `a` is an earlier day than `b`.
pub open spec fn date_lt(a: Date, b: Date) -> bool {
    a.year < b.year || (a.year == b.year && (a.month < b.month || (a.month == b.month && a.day
        < b.day)))
}

impl DeepView for Date {
    type V = Date;

    open spec fn deep_view(&self) -> Date {
        *self
    }
}

impl Duplicate for Date {
    fn duplicate(&self) -> (r: Date) {
        *self
    }
}

impl Same for Date {
    fn same(&self, other: &Date) -> (r: bool) {
        *self == *other
    }
}

impl Date {
    /// The day exists in the calendar and its year is one that can be held.
    pub open spec fn valid(self) -> bool {
        &&& MIN_YEAR <= self.year <= MAX_YEAR
        &&& 1 <= self.month <= 12
        &&& 1 <= self.day <= days_in_month(self.year as int, self.month as int)
    }

    /// The date of the given year, month and day, if there is such a day.
    pub fn from_ymd(year: i32, month: u32, day: u32) -> (r: Option<Date>)
        ensures
            r == if (Date { year, month, day }).valid() {
                Some(Date { year, month, day })
            } else {
                None
            },
    {
        if year < MIN_YEAR || year > MAX_YEAR || month < 1 || month > 12 || day < 1 {
            return None;
        }
        let leap = year % 4 == 0 && (year % 100 != 0 || year % 400 == 0);
        let limit: u32 = if month == 2 {
            if leap {
                29
            } else {
                28
            }
        } else if month == 4 || month == 6 || month == 9 || month == 11 {
            30
        } else {
            31
        };
        if day > limit {
            None
        } else {
            Some(Date { year, month, day })
        }
    }

    /// Whether `self` is a later day than `other`.
    pub fn is_after(&self, other: &Date) -> (r: bool)
        ensures
            r == date_lt(*other, *self),
    {
        other.year < self.year || (other.year == self.year && (other.month < self.month || (
        other.month == self.month && other.day < self.day)))
    }
}

/// The day that lies `months` months after `d`: the same day of the month,
/// or the last day of that month where it is shorter; `None` past the last
/// year that can be held.
pub open spec fn months_after(d: Date, months: u32) -> Option<Date> {
    if months == 0 {
        Some(d)
    } else {
        let total = d.year * 12 + (d.month - 1) + months;
        let year = total / 12;
        let month = total % 12 + 1;
        let longest = days_in_month(year, month);
        if year > MAX_YEAR {
            None
        } else {
            Some(
                Date {
                    year: year as i32,
                    month: month as u32,
                    day: if d.day > longest {
                        longest as u32
                    } else {
                        d.day
                    },
                },
            )
        }
    }
}

/// An instant: whole seconds since 1970-01-01 00:00:00 UTC, and the
/// nanoseconds into that second.
#[derive(Clone, Copy, Debug, PartialEq, Eq, Structural)]
pub struct Timestamp {
    pub secs: i64,
    pub nanos: u32,
}

impl DeepView for Timestamp {
    type V = Timestamp;

    open spec fn deep_view(&self) -> Timestamp {
        *self
    }
}

impl Duplicate for Timestamp {
    fn duplicate(&self) -> (r: Timestamp) {
        *self
    }
}

impl Same for Timestamp {
    fn same(&self, other: &Timestamp) -> (r: bool) {
        *self == *other
    }
}

/// The nanoseconds from `earlier` to `later`.
pub open spec fn nanos_between(earlier: Timestamp, later: Timestamp) -> int {
    (later.secs - earlier.secs) * NANOS_PER_SECOND + (later.nanos - earlier.nanos)
}

impl Timestamp {
    /// Whether fewer than `days` whole days lie between `earlier` and `self`.
    pub fn within_days_of(&self, earlier: &Timestamp, days: i64) -> (r: bool)
        ensures
            r == (nanos_between(*earlier, *self) < days * SECONDS_PER_DAY * NANOS_PER_SECOND),
    {
        let later: i128 = self.secs as i128;
        let before: i128 = earlier.secs as i128;
        let gap: i128 = (later - before) * 1000000000 + (self.nanos as i128 - earlier.nanos as i128);
        let whole: i128 = days as i128;
        assert(-0x8000_0000_0000_0000 * 86400 <= whole * 86400 <= 0x8000_0000_0000_0000 * 86400);
        let seconds: i128 = whole * 86400;
        assert(-0x8000_0000_0000_0000 * 86400 * 1000000000 <= seconds * 1000000000
            <= 0x8000_0000_0000_0000 * 86400 * 1000000000);
        let limit: i128 = seconds * 1000000000;
        assert((later - before) * 1000000000 == (self.secs - earlier.secs) * NANOS_PER_SECOND);
        assert(days as i128 * 86400 * 1000000000 == days * SECONDS_PER_DAY * NANOS_PER_SECOND)
            by (nonlinear_arith)
            requires
                SECONDS_PER_DAY == 86400,
                NANOS_PER_SECOND == 1000000000,
        ;
        gap < limit
    }
}

/// The UTC calendar day on which an instant falls, where `chrono` can hold
/// it.
pub uninterp spec fn utc_day(secs: i64, nanos: u32) -> Option<Date>;

/// Calls `chrono::NaiveDate::checked_add_months`. Claimed of it: the result
/// keeps the day of the month, cut down to the length of the month reached,
/// and is `None` only when the year reached is past the last one.
#[verifier::external_body]
pub(crate) fn plus_months(date: Date, months: u32) -> (r: Option<Date>)
    requires
        date.valid(),
    ensures
        r == months_after(date, months),
        r matches Some(d) ==> d.valid(),
{
    chrono::NaiveDate::from_ymd_opt(date.year, date.month, date.day).and_then(
        |d| d.checked_add_months(chrono::Months::new(months)),
    ).map(
        |d| Date {
            year: chrono::Datelike::year(&d),
            month: chrono::Datelike::month(&d),
            day: chrono::Datelike::day(&d),
        },
    )
}

/// Calls `chrono::DateTime::from_timestamp` and `date_naive`. Claimed of
/// them: the day depends on the instant alone and, where there is one, it is
/// a day of the calendar.
#[verifier::external_body]
pub(crate) fn utc_date(at: Timestamp) -> (r: Option<Date>)
    ensures
        r == utc_day(at.secs, at.nanos),
        r matches Some(d) ==> d.valid(),
{
    chrono::DateTime::from_timestamp(at.secs, at.nanos).map(
        |t| {
            let d = t.date_naive();
            Date {
                year: chrono::Datelike::year(&d),
                month: chrono::Datelike::month(&d),
                day: chrono::Datelike::day(&d),
            }
        },
    )
}

} // verus!
