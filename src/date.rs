//! Calendar dates of articles: reading them from metadata, their
//! chronological order, their ISO week, and their textual form.

use vstd::prelude::*;
use crate::text::{padded, push_padded};

verus! {

pub open spec fn is_leap_year(year: int) -> bool {
    year % 4 == 0 && (year % 100 != 0 || year % 400 == 0)
}

pub open spec fn days_in_month(year: int, month: int) -> int {
    if month == 2 {
        if is_leap_year(year) {
            29
        } else {
            28
        }
    } else if month == 4 || month == 6 || month == 9 || month == 11 {
        30
    } else {
        31
    }
}

/// A day of the proleptic Gregorian calendar, with a four-digit year.
pub open spec fn is_valid_date(year: int, month: int, day: int) -> bool {
    &&& -9999 <= year <= 9999
    &&& 1 <= month <= 12
    &&& 1 <= day <= days_in_month(year, month)
}

/// What the text `[year]-[month]-[day]` denotes as a date, if anything.
pub uninterp spec fn parsed_date(text: Seq<char>) -> Option<(int, int, int)>;

/// The ISO 8601 week number of a valid date.
pub uninterp spec fn iso_week_of(year: int, month: int, day: int) -> int;

/// Relies on `time::Date::parse` with the description `[year]-[month]-[day]`:
/// the date the text spells, if it spells one; a `time::Date` is always a
/// valid calendar date with a year within ±9999.
#[verifier::external_body]
fn read_date(text: &str) -> (r: Option<(i32, u8, u8)>)
    ensures
        r is None ==> parsed_date(text@) is None,
        r matches Some(t) ==> parsed_date(text@) == Some((t.0 as int, t.1 as int, t.2 as int))
            && is_valid_date(t.0 as int, t.1 as int, t.2 as int),
{
    let description = time::format_description::parse("[year]-[month]-[day]").ok()?;
    let date = time::Date::parse(text, &description).ok()?;
    Some((date.year(), date.month() as u8, date.day()))
}

/// Relies on `time::Date::iso_week`: the ISO 8601 week number of a valid date,
/// which lies in `1..=53`.
#[verifier::external_body]
fn iso_week_number(year: i32, month: u8, day: u8) -> (r: u8)
    requires
        is_valid_date(year as int, month as int, day as int),
    ensures
        r as int == iso_week_of(year as int, month as int, day as int),
        1 <= r <= 53,
{
    let month = time::Month::try_from(month).unwrap();
    time::Date::from_calendar_date(year, month, day).unwrap().iso_week()
}

/// A calendar date.
#[derive(Clone, Copy, Debug, PartialEq, Eq, Structural)]
pub struct CalendarDate {
    pub year: i32,
    pub month: u8,
    pub day: u8,
}

/// The year as `{:04}` prints it: zero-padded to four characters, sign included.
pub open spec fn year_field(year: int) -> Seq<char> {
    if year < 0 {
        seq!['-'] + padded((-year) as nat, 3)
    } else {
        padded(year as nat, 4)
    }
}

/// The date as `YYYY-MM-DD`, a negative year carrying a leading `-`.
pub open spec fn date_text(year: int, month: int, day: int) -> Seq<char> {
    (if year < 0 {
        seq!['-']
    } else {
        Seq::empty()
    }) + padded((if year < 0 { -year } else { year }) as nat, 4) + seq!['-'] + padded(
        month as nat,
        2,
    ) + seq!['-'] + padded(day as nat, 2)
}

impl CalendarDate {
    pub open spec fn wf(&self) -> bool {
        is_valid_date(self.year as int, self.month as int, self.day as int)
    }

    /// The position of the date in chronological order.
    pub open spec fn key(&self) -> int {
        self.year * 10000 + self.month * 100 + self.day
    }

    pub open spec fn iso_week_spec(&self) -> int {
        iso_week_of(self.year as int, self.month as int, self.day as int)
    }

    /// The ISO week number as a byte; `iso_week` shows that it lies in `1..=53`.
    pub open spec fn week_number(&self) -> u8 {
        self.iso_week_spec() as u8
    }

    pub open spec fn text_spec(&self) -> Seq<char> {
        date_text(self.year as int, self.month as int, self.day as int)
    }

    /// The date with these components, if they name a valid date.
    pub fn new(year: i32, month: u8, day: u8) -> (r: Option<CalendarDate>)
        ensures
            r is Some <==> is_valid_date(year as int, month as int, day as int),
            r matches Some(d) ==> d.year == year && d.month == month && d.day == day,
    {
        if year < -9999 || year > 9999 || month < 1 || month > 12 || day < 1 {
            return None;
        }
        let leap = year % 4 == 0 && (year % 100 != 0 || year % 400 == 0);
        let last: u8 = if month == 2 {
            if leap {
                29
            } else {
                28
            }
        } else if month == 4 || month == 6 || month == 9 || month == 11 {
            30
        } else {
            31
        };
        if day > last {
            None
        } else {
            Some(CalendarDate { year, month, day })
        }
    }

    /// Reads a date written `[year]-[month]-[day]`.
    pub fn parse(text: &str) -> (r: Option<CalendarDate>)
        ensures
            r is None <==> parsed_date(text@) is None,
            r matches Some(d) ==> d.wf() && parsed_date(text@) == Some(
                (d.year as int, d.month as int, d.day as int),
            ),
    {
        match read_date(text) {
            Some((year, month, day)) => Some(CalendarDate { year, month, day }),
            None => None,
        }
    }

    pub fn key_value(&self) -> (r: i64)
        requires
            self.wf(),
        ensures
            r == self.key(),
    {
        self.year as i64 * 10000 + self.month as i64 * 100 + self.day as i64
    }

    /// The ISO 8601 week number of the date.
    pub fn iso_week(&self) -> (r: u8)
        requires
            self.wf(),
        ensures
            r == self.iso_week_spec(),
            r == self.week_number(),
            1 <= r <= 53,
    {
        iso_week_number(self.year, self.month, self.day)
    }

    /// The date as text, `YYYY-MM-DD`.
    pub fn text(&self) -> (r: String)
        requires
            self.wf(),
        ensures
            r@ == self.text_spec(),
    {
        let mut out = String::new();
        let magnitude: u32;
        if self.year < 0 {
            out.append("-");
            magnitude = (-self.year) as u32;
        } else {
            magnitude = self.year as u32;
        }
        push_padded(&mut out, magnitude, 4);
        out.append("-");
        push_padded(&mut out, self.month as u32, 2);
        out.append("-");
        push_padded(&mut out, self.day as u32, 2);
        proof {
            reveal_strlit("-");
            assert(out@ =~= self.text_spec());
        }
        out
    }
}

/// Appends the year as `{:04}` prints it.
pub fn push_year_field(out: &mut String, year: i32)
    requires
        -9999 <= year <= 9999,
    ensures
        final(out)@ == old(out)@ + year_field(year as int),
{
    proof {
        reveal_strlit("-");
    }
    if year < 0 {
        out.append("-");
        push_padded(out, (-year) as u32, 3);
    } else {
        push_padded(out, year as u32, 4);
    }
    proof {
        assert(final(out)@ =~= old(out)@ + year_field(year as int));
    }
}

} // verus!
