use crate::error::{AppError, ErrorKind};
use crate::text::{padded_decimal, push_padded_decimal};
use chrono::Datelike;
use vstd::prelude::*;
use vstd::string::*;

verus! {

/// The earliest year a log date may have.
pub const MIN_YEAR: i32 = 1;

/// The latest year a log date may have: years are written with four digits.
pub const MAX_YEAR: i32 = 9999;

/// Leap years of the proleptic Gregorian calendar.
pub open spec fn is_leap_year(y: int) -> bool {
    (y % 4 == 0 && y % 100 != 0) || y % 400 == 0
}

/// The number of days in month `m` of year `y`.
pub open spec fn days_in_month(y: int, m: int) -> int {
    if m == 2 {
        if is_leap_year(y) {
            29
        } else {
            28
        }
    } else if m == 4 || m == 6 || m == 9 || m == 11 {
        30
    } else {
        31
    }
}

/// `(y, m, d)` names a day of the proleptic Gregorian calendar.
pub open spec fn is_valid_ymd(y: int, m: int, d: int) -> bool {
    1 <= m <= 12 && 1 <= d <= days_in_month(y, m)
}

/// The ISO 8601 text `YYYY-MM-DD` of a day.
pub open spec fn iso_text(y: int, m: int, d: int) -> Seq<char> {
    padded_decimal(y as nat, 4) + seq!['-'] + padded_decimal(m as nat, 2) + seq!['-']
        + padded_decimal(d as nat, 2)
}

/// What chrono's `NaiveDate::parse_from_str(s, "%Y-%m-%d")` gives for a text, as
/// year, month and day.
pub uninterp spec fn parsed_ymd(s: Seq<char>) -> Option<(i32, u32, u32)>;

/// What chrono's `NaiveDate::format` with `%A, %d %B %Y` writes for a day.
pub uninterp spec fn humanized(y: i32, m: u32, d: u32) -> Seq<char>;

/// Relies on chrono's `NaiveDate::parse_from_str` with the format `%Y-%m-%d`: the
/// result depends on the text alone, is a valid calendar day, and the ISO text of
/// a day with a four-digit year parses back to that day.
#[verifier::external_body]
fn parse_ymd(s: &str) -> (r: Option<(i32, u32, u32)>)
    ensures
        r == parsed_ymd(s@),
        r matches Some(t) ==> is_valid_ymd(t.0 as int, t.1 as int, t.2 as int),
        forall|y: i32, m: u32, d: u32|
            #![trigger iso_text(y as int, m as int, d as int)]
            MIN_YEAR <= y <= MAX_YEAR && is_valid_ymd(y as int, m as int, d as int) && s@
                == iso_text(y as int, m as int, d as int) ==> r == Some((y, m, d)),
{
    match chrono::NaiveDate::parse_from_str(s, "%Y-%m-%d") {
        Ok(date) => Some((date.year(), date.month(), date.day())),
        Err(_) => None,
    }
}

/// Relies on chrono's `Local::now` and `DateTime::date_naive`: today's date in the
/// machine's time zone, a valid calendar day.
#[verifier::external_body]
fn local_today() -> (r: (i32, u32, u32))
    ensures
        is_valid_ymd(r.0 as int, r.1 as int, r.2 as int),
{
    let date = chrono::Local::now().date_naive();
    (date.year(), date.month(), date.day())
}

/// Relies on chrono's `NaiveDate::from_ymd_opt` and `NaiveDate::format` with the
/// format `%A, %d %B %Y`: the weekday, day, month name and year of a valid day.
#[verifier::external_body]
fn humanize_ymd(y: i32, m: u32, d: u32) -> (r: String)
    requires
        MIN_YEAR <= y <= MAX_YEAR,
        is_valid_ymd(y as int, m as int, d as int),
    ensures
        r@ == humanized(y, m, d),
{
    match chrono::NaiveDate::from_ymd_opt(y, m, d) {
        Some(date) => date.format("%A, %d %B %Y").to_string(),
        None => String::new(),
    }
}

/// A calendar day, with a year from `MIN_YEAR` to `MAX_YEAR`.
#[derive(Clone, Copy, Debug, PartialEq, Eq, Structural)]
pub struct Date {
    pub year: i32,
    pub month: u32,
    pub day: u32,
}

/// The number of days in month `m` of year `y`.
fn month_length(y: i32, m: u32) -> (r: u32)
    ensures
        r as int == days_in_month(y as int, m as int),
{
    if m == 2 {
        if (y % 4 == 0 && y % 100 != 0) || y % 400 == 0 {
            29
        } else {
            28
        }
    } else if m == 4 || m == 6 || m == 9 || m == 11 {
        30
    } else {
        31
    }
}

impl Date {
    /// The date is a valid calendar day within the supported years.
    pub open spec fn wf(self) -> bool {
        MIN_YEAR <= self.year <= MAX_YEAR && is_valid_ymd(
            self.year as int,
            self.month as int,
            self.day as int,
        )
    }

    /// The ISO 8601 text of the date.
    pub open spec fn iso(self) -> Seq<char> {
        iso_text(self.year as int, self.month as int, self.day as int)
    }

    /// The date as year, month and day.
    pub open spec fn ymd(self) -> (int, int, int) {
        (self.year as int, self.month as int, self.day as int)
    }

    /// The date with the given year, month and day, or `None` where they name no
    /// day or the year is out of range.
    pub fn new(year: i32, month: u32, day: u32) -> (r: Option<Date>)
        ensures
            r is Some <==> (MIN_YEAR <= year <= MAX_YEAR && is_valid_ymd(
                year as int,
                month as int,
                day as int,
            )),
            r matches Some(d) ==> d.year == year && d.month == month && d.day == day,
    {
        if MIN_YEAR <= year && year <= MAX_YEAR && 1 <= month && month <= 12 && 1 <= day && day
            <= month_length(year, month) {
            Some(Date { year, month, day })
        } else {
            None
        }
    }

    /// The date that a parse result names, or a validation error where there is
    /// none or it is out of range.
    pub fn from_parsed(parsed: Option<(i32, u32, u32)>) -> (r: Result<Date, AppError>)
        ensures
            r is Ok <==> (parsed matches Some(t) && MIN_YEAR <= t.0 <= MAX_YEAR && is_valid_ymd(
                t.0 as int,
                t.1 as int,
                t.2 as int,
            )),
            r matches Ok(d) ==> parsed == Some((d.year, d.month, d.day)),
            r matches Err(e) ==> e.kind == ErrorKind::Validation,
    {
        match parsed {
            Some((y, m, d)) => match Date::new(y, m, d) {
                Some(date) => Ok(date),
                None => Err(AppError::with_kind(ErrorKind::Validation, "invalid date")),
            },
            None => Err(AppError::with_kind(ErrorKind::Validation, "invalid date")),
        }
    }

    /// Parses an ISO 8601 date `YYYY-MM-DD`. A malformed text is a validation error.
    pub fn parse(s: &str) -> (r: Result<Date, AppError>)
        ensures
            r is Ok <==> (parsed_ymd(s@) matches Some(t) && MIN_YEAR <= t.0 <= MAX_YEAR
                && is_valid_ymd(t.0 as int, t.1 as int, t.2 as int)),
            r matches Ok(d) ==> parsed_ymd(s@) == Some((d.year, d.month, d.day)),
            r matches Err(e) ==> e.kind == ErrorKind::Validation,
            forall|d: Date| #![trigger d.iso()] d.wf() && s@ == d.iso() ==> r == Ok::<Date, AppError>(d),
    {
        let parsed = parse_ymd(s);
        let r = Date::from_parsed(parsed);
        assert forall|d: Date| #![trigger d.iso()] d.wf() && s@ == d.iso() implies r == Ok::<Date, AppError>(d) by {
            assert(s@ == iso_text(d.year as int, d.month as int, d.day as int));
        }
        r
    }

    /// Today's date in the machine's time zone; a validation error where the
    /// clock's year is out of range.
    pub fn today() -> (r: Result<Date, AppError>)
        ensures
            r matches Ok(d) ==> d.wf(),
            r matches Err(e) ==> e.kind == ErrorKind::Validation,
    {
        let t = local_today();
        Date::from_parsed(Some(t))
    }

    /// The date as year, month and day.
    pub fn into_inner(self) -> (r: (i32, u32, u32))
        ensures
            r == (self.year, self.month, self.day),
    {
        (self.year, self.month, self.day)
    }

    /// The date in words, such as `Monday, 05 January 2026`.
    pub fn humanize(&self) -> (r: String)
        requires
            self.wf(),
        ensures
            r@ == humanized(self.year, self.month, self.day),
    {
        humanize_ymd(self.year, self.month, self.day)
    }

    /// The ISO 8601 text `YYYY-MM-DD` of the date.
    pub fn to_iso_string(&self) -> (r: String)
        requires
            self.wf(),
        ensures
            r@ == self.iso(),
    {
        let mut s = String::new();
        push_padded_decimal(&mut s, self.year as u64, 4);
        proof { reveal_strlit("-"); }
        s.append("-");
        push_padded_decimal(&mut s, self.month as u64, 2);
        s.append("-");
        push_padded_decimal(&mut s, self.day as u64, 2);
        assert(s@ =~= self.iso());
        s
    }

    /// The day after, or `None` after the last supported day.
    pub fn next_day(self) -> (r: Option<Date>)
        requires
            self.wf(),
        ensures
            r is Some <==> !(self.year == MAX_YEAR && self.month == 12 && self.day == 31),
            r matches Some(n) ==> n.wf() && n.ymd() == (if self.day < days_in_month(
                self.year as int,
                self.month as int,
            ) {
                (self.year as int, self.month as int, self.day + 1)
            } else if self.month < 12 {
                (self.year as int, self.month + 1, 1int)
            } else {
                (self.year + 1, 1int, 1int)
            }),
    {
        if self.day < month_length(self.year, self.month) {
            Some(Date { year: self.year, month: self.month, day: self.day + 1 })
        } else if self.month < 12 {
            Some(Date { year: self.year, month: self.month + 1, day: 1 })
        } else if self.year < MAX_YEAR {
            Some(Date { year: self.year + 1, month: 1, day: 1 })
        } else {
            None
        }
    }

    /// The day before, or `None` before the first supported day.
    pub fn prev_day(self) -> (r: Option<Date>)
        requires
            self.wf(),
        ensures
            r is Some <==> !(self.year == MIN_YEAR && self.month == 1 && self.day == 1),
            r matches Some(p) ==> p.wf() && p.ymd() == (if self.day > 1 {
                (self.year as int, self.month as int, self.day - 1)
            } else if self.month > 1 {
                (self.year as int, self.month - 1, days_in_month(self.year as int, self.month - 1))
            } else {
                (self.year - 1, 12int, 31int)
            }),
    {
        if self.day > 1 {
            Some(Date { year: self.year, month: self.month, day: self.day - 1 })
        } else if self.month > 1 {
            let m = self.month - 1;
            Some(Date { year: self.year, month: m, day: month_length(self.year, m) })
        } else if self.year > MIN_YEAR {
            Some(Date { year: self.year - 1, month: 12, day: 31 })
        } else {
            None
        }
    }
}

} // verus!
