//! Calendar dates with a four-digit year, ordered chronologically.

use vstd::prelude::*;
use crate::text::{fixed_decimal, push_char, push_fixed_decimal};

verus! {

/// Whether `year` is a leap year of the proleptic Gregorian calendar.
pub open spec fn is_leap_year(year: int) -> bool {
    year % 4 == 0 && (year % 100 != 0 || year % 400 == 0)
}

/// The number of days of `month` in `year`; zero for a month outside 1..=12.
pub open spec fn days_in_month(year: int, month: int) -> int {
    if month == 2 {
        if is_leap_year(year) {
            29
        } else {
            28
        }
    } else if month == 4 || month == 6 || month == 9 || month == 11 {
        30
    } else if 1 <= month <= 12 {
        31
    } else {
        0
    }
}

/// Whether the three numbers name a day of the calendar in the years 0 to 9999.
pub open spec fn is_calendar_date(year: int, month: int, day: int) -> bool {
    &&& 0 <= year <= 9999
    &&& 1 <= month <= 12
    &&& 1 <= day <= days_in_month(year, month)
}

/// A date as the three numbers it is written with.
pub struct DateView {
    pub year: int,
    pub month: int,
    pub day: int,
}

/// Chronological order: `a` is strictly earlier than `b`.
pub open spec fn date_before(a: DateView, b: DateView) -> bool {
    a.year < b.year || (a.year == b.year && (a.month < b.month || (a.month == b.month && a.day
        < b.day)))
}

/// The text `YYYY/MM/DD` of a date.
pub open spec fn date_text(d: DateView) -> Seq<char> {
    fixed_decimal(d.year as nat, 4).push('/') + fixed_decimal(d.month as nat, 2).push('/')
        + fixed_decimal(d.day as nat, 2)
}

/// The text `YYYY-MM-DD` of a date.
pub open spec fn date_iso_text(d: DateView) -> Seq<char> {
    fixed_decimal(d.year as nat, 4).push('-') + fixed_decimal(d.month as nat, 2).push('-')
        + fixed_decimal(d.day as nat, 2)
}

/// A calendar date without a time of day.
#[derive(Clone, Copy, Debug, PartialEq, Eq, Structural, PartialOrd, Ord, Hash)]
pub struct Date {
    year: u16,
    month: u8,
    day: u8,
}

impl View for Date {
    type V = DateView;

    closed spec fn view(&self) -> DateView {
        DateView { year: self.year as int, month: self.month as int, day: self.day as int }
    }
}

impl Date {
    #[verifier::type_invariant]
    spec fn well_formed(self) -> bool {
        is_calendar_date(self.year as int, self.month as int, self.day as int)
    }

    /// Builds the date `year`-`month`-`day`, or `None` when the calendar has no such day.
    pub fn new(year: u16, month: u8, day: u8) -> (r: Option<Date>)
        ensures
            r is Some <==> is_calendar_date(year as int, month as int, day as int),
            r matches Some(d) ==> d@ == (DateView {
                year: year as int,
                month: month as int,
                day: day as int,
            }),
    {
        if year > 9999 || month < 1 || month > 12 || day < 1 {
            return None;
        }
        let leap = year % 4 == 0 && (year % 100 != 0 || year % 400 == 0);
        let last: u8 = if month == 2 {
            if leap {
                29
            } else {
                28
            }
        } else if month == 4 || month == 6 || month == 9 || month == 11 {
            30
        } else {
            31
        };
        if day > last {
            None
        } else {
            Some(Date { year, month, day })
        }
    }

    /// The year, from 0 to 9999.
    pub fn year(&self) -> (r: u16)
        ensures
            r == self@.year,
            r <= 9999,
    {
        proof {
            use_type_invariant(self);
        }
        self.year
    }

    /// The month, from 1 to 12.
    pub fn month(&self) -> (r: u8)
        ensures
            r == self@.month,
            1 <= r <= 12,
    {
        proof {
            use_type_invariant(self);
        }
        self.month
    }

    /// The day of the month, starting at 1.
    pub fn day(&self) -> (r: u8)
        ensures
            r == self@.day,
            1 <= r <= days_in_month(self@.year, self@.month),
    {
        proof {
            use_type_invariant(self);
        }
        self.day
    }

    /// Whether `self` is strictly earlier than `other`.
    pub fn is_before(&self, other: &Date) -> (r: bool)
        ensures
            r == date_before(self@, other@),
    {
        self.year < other.year || (self.year == other.year && (self.month < other.month || (
        self.month == other.month && self.day < other.day)))
    }

    /// Whether both are the same day.
    pub fn is_same_day(&self, other: &Date) -> (r: bool)
        ensures
            r == (self@ == other@),
    {
        self.year == other.year && self.month == other.month && self.day == other.day
    }

    /// Appends the date as `YYYY/MM/DD` to `out`.
    pub fn push_to(&self, out: &mut String)
        ensures
            final(out)@ == old(out)@ + date_text(self@),
    {
        push_fixed_decimal(out, self.year as u128, 4);
        push_char(out, '/');
        push_fixed_decimal(out, self.month as u128, 2);
        push_char(out, '/');
        push_fixed_decimal(out, self.day as u128, 2);
        assert(out@ =~= old(out)@ + date_text(self@));
    }

    /// Appends the date as `YYYY-MM-DD` to `out`.
    pub fn push_iso_to(&self, out: &mut String)
        ensures
            final(out)@ == old(out)@ + date_iso_text(self@),
    {
        push_fixed_decimal(out, self.year as u128, 4);
        push_char(out, '-');
        push_fixed_decimal(out, self.month as u128, 2);
        push_char(out, '-');
        push_fixed_decimal(out, self.day as u128, 2);
        assert(out@ =~= old(out)@ + date_iso_text(self@));
    }

    /// The date as `YYYY/MM/DD`.
    pub fn formatted(&self) -> (r: String)
        ensures
            r@ == date_text(self@),
    {
        let mut out = String::new();
        self.push_to(&mut out);
        assert(out@ =~= date_text(self@));
        out
    }
}

} // verus!
