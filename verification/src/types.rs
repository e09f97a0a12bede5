//! The plain data that the search works on: rectangles, calendar dates, and
//! what the job takes in and gives back.

use crate::text::{padded, push_padded};
use chrono::{Datelike, NaiveDate};
use vstd::prelude::*;
use vstd::string::StringExecFns;

verus! {

/// Pixel bounds of a clickable region on a scanned page.
#[derive(Debug, Clone, Copy, PartialEq, Eq, Structural)]
pub struct Rect {
    pub x1: i32,
    pub y1: i32,
    pub x2: i32,
    pub y2: i32,
}

/// What the job is asked for: a date as `YYYY-MM-DD`, or none for today.
#[derive(Debug, Clone, PartialEq, Eq)]
pub struct LambdaInput {
    pub date: Option<String>,
}

/// What the job reports when it has gone well.
#[derive(Debug, Clone, PartialEq, Eq)]
pub struct LambdaOutput {
    pub message: String,
    pub filename: String,
}

/// Whether `year` has a 29th of February, in the Gregorian calendar carried
/// back and forth over all years.
pub open spec fn is_leap_year(year: int) -> bool {
    year % 4 == 0 && (year % 100 != 0 || year % 400 == 0)
}

/// The number of days of `month` in `year`.
pub open spec fn days_in_month(year: int, month: int) -> int {
    if month == 2 {
        if is_leap_year(year) {
            29
        } else {
            28
        }
    } else if month == 4 || month == 6 || month == 9 || month == 11 {
        30
    } else {
        31
    }
}

/// Whether there is such a day in the calendar.
pub open spec fn is_calendar_date(year: int, month: int, day: int) -> bool {
    1 <= month <= 12 && 1 <= day <= days_in_month(year, month)
}

/// A day of the calendar. A value of this type is always a day that exists.
#[derive(Debug, Clone, Copy, PartialEq, Eq, Structural)]
pub struct Date {
    year: i32,
    month: u32,
    day: u32,
}

impl Date {
    /// What holds of every `Date`: its day is one of the calendar.
    #[verifier::type_invariant]
    spec fn exists_in_calendar(self) -> bool {
        is_calendar_date(self.year as int, self.month as int, self.day as int)
    }

    /// The year of the date; 0 is the year before the year 1.
    pub closed spec fn spec_year(&self) -> i32 {
        self.year
    }

    /// The month of the date, from 1 for January.
    pub closed spec fn spec_month(&self) -> u32 {
        self.month
    }

    /// The day of the month, from 1.
    pub closed spec fn spec_day(&self) -> u32 {
        self.day
    }

    /// The date of the given year, month and day, if there is such a day.
    pub fn new(year: i32, month: u32, day: u32) -> (r: Option<Date>)
        ensures
            r is Some <==> is_calendar_date(year as int, month as int, day as int),
            r matches Some(date) ==> date.year() == year && date.month() == month && date.day()
                == day,
    {
        if month < 1 || month > 12 || day < 1 {
            return None;
        }
        // A multiple of 400 is added, so that the remainders are taken of a
        // number that is not negative.
        let shifted: i64 = year as i64 + 2_147_484_000;
        let leap: bool = shifted % 4 == 0 && (shifted % 100 != 0 || shifted % 400 == 0);
        let days: u32 = if month == 2 {
            if leap {
                29
            } else {
                28
            }
        } else if month == 4 || month == 6 || month == 9 || month == 11 {
            30
        } else {
            31
        };
        if day <= days {
            Some(Date { year, month, day })
        } else {
            None
        }
    }

    /// The year of the date.
    #[verifier::when_used_as_spec(spec_year)]
    pub fn year(&self) -> (y: i32)
        ensures
            y == self.spec_year(),
    {
        self.year
    }

    /// The month of the date, from 1 for January.
    #[verifier::when_used_as_spec(spec_month)]
    pub fn month(&self) -> (m: u32)
        ensures
            m == self.spec_month(),
            1 <= m <= 12,
    {
        proof {
            use_type_invariant(self);
        }
        self.month
    }

    /// The day of the month, from 1. It is a day that the date's month has in
    /// the date's year.
    #[verifier::when_used_as_spec(spec_day)]
    pub fn day(&self) -> (d: u32)
        ensures
            d == self.spec_day(),
            1 <= d <= 31,
            is_calendar_date(self.year() as int, self.month() as int, d as int),
    {
        proof {
            use_type_invariant(self);
        }
        self.day
    }

    /// The year as the date's text has it: four digits for the years 0 to
    /// 9999; for any other year a sign, then at least four digits.
    pub open spec fn year_text(self) -> Seq<char> {
        let y = self.year() as int;
        if 0 <= y <= 9999 {
            padded(y as nat, 4)
        } else if y < 0 {
            seq!['-'] + padded((-y) as nat, 4)
        } else {
            seq!['+'] + padded(y as nat, 4)
        }
    }

    /// The month in two digits.
    pub open spec fn month_text(self) -> Seq<char> {
        padded(self.month() as nat, 2)
    }

    /// The day of the month in two digits.
    pub open spec fn day_text(self) -> Seq<char> {
        padded(self.day() as nat, 2)
    }

    /// The date as `YYYY-MM-DD`.
    pub open spec fn iso(self) -> Seq<char> {
        self.year_text() + seq!['-'] + self.month_text() + seq!['-'] + self.day_text()
    }

    /// Appends the year's text to `out`.
    pub fn push_year(&self, out: &mut String)
        ensures
            final(out)@ == old(out)@ + self.year_text(),
    {
        let y: i64 = self.year as i64;
        if 0 <= y && y <= 9999 {
            push_padded(out, y as u64, 4);
        } else if y < 0 {
            out.push('-');
            push_padded(out, (-y) as u64, 4);
        } else {
            out.push('+');
            push_padded(out, y as u64, 4);
        }
    }

    /// Appends the month's two digits to `out`.
    pub fn push_month(&self, out: &mut String)
        ensures
            final(out)@ == old(out)@ + self.month_text(),
    {
        push_padded(out, self.month as u64, 2);
    }

    /// Appends the day's two digits to `out`.
    pub fn push_day(&self, out: &mut String)
        ensures
            final(out)@ == old(out)@ + self.day_text(),
    {
        push_padded(out, self.day as u64, 2);
    }

    /// Appends the date as `YYYY-MM-DD` to `out`.
    pub fn push_iso(&self, out: &mut String)
        ensures
            final(out)@ == old(out)@ + self.iso(),
    {
        self.push_year(out);
        out.push('-');
        self.push_month(out);
        out.push('-');
        self.push_day(out);
    }

    /// The date as `YYYY-MM-DD`.
    pub fn to_iso_string(&self) -> (s: String)
        ensures
            s@ == self.iso(),
    {
        let mut s = String::new();
        self.push_iso(&mut s);
        s
    }
}

/// What `chrono` reads in `s` by the format `fmt`: the year, month and day
/// of the date it finds, or the text of the error it gives.
pub uninterp spec fn chrono_date(s: Seq<char>, fmt: Seq<char>) -> Result<
    (i32, u32, u32),
    Seq<char>,
>;

/// Calls `chrono`: `NaiveDate::parse_from_str`, then `year`, `month` and
/// `day` of the date, or `to_string` of the error. Nothing is proved of it.
/// The contract says that the result is `chrono_date` of the arguments.
#[verifier::external_body]
fn parse_from_str(s: &str, fmt: &str) -> (r: Result<(i32, u32, u32), String>)
    ensures
        match chrono_date(s@, fmt@) {
            Ok(ymd) => r == Ok::<(i32, u32, u32), String>(ymd),
            Err(e) => r matches Err(m) && m@ == e,
        },
{
    match NaiveDate::parse_from_str(s, fmt) {
        Ok(date) => Ok((date.year(), date.month(), date.day())),
        Err(e) => Err(e.to_string()),
    }
}

/// What becomes of a reading of a date: the day read, if it is one of the
/// calendar, else a message that starts with `prefix`.
pub open spec fn checked_date(
    parsed: Result<(i32, u32, u32), Seq<char>>,
    prefix: Seq<char>,
) -> Result<(i32, u32, u32), Seq<char>> {
    match parsed {
        Ok((year, month, day)) => if is_calendar_date(year as int, month as int, day as int) {
            Ok((year, month, day))
        } else {
            Err(prefix + "input is out of range"@)
        },
        Err(e) => Err(prefix + e),
    }
}

/// Whether `r` is the date or the message that `expected` stands for.
pub open spec fn is_date_result(
    r: Result<Date, String>,
    expected: Result<(i32, u32, u32), Seq<char>>,
) -> bool {
    match expected {
        Ok((year, month, day)) => r matches Ok(date) && date.year() == year && date.month()
            == month && date.day() == day,
        Err(message) => r matches Err(m) && m@ == message,
    }
}

/// The characters of a reading of a date.
pub open spec fn parsed_chars(parsed: Result<(i32, u32, u32), String>) -> Result<
    (i32, u32, u32),
    Seq<char>,
> {
    match parsed {
        Ok(ymd) => Ok(ymd),
        Err(e) => Err(e@),
    }
}

/// Makes a `Date` of the year, month and day that were read, or a message
/// of the error: `prefix`, then the error's own text.
pub fn date_from_parts(parsed: Result<(i32, u32, u32), String>, prefix: &str) -> (r: Result<
    Date,
    String,
>)
    ensures
        is_date_result(r, checked_date(parsed_chars(parsed), prefix@)),
{
    match parsed {
        Ok((year, month, day)) => match Date::new(year, month, day) {
            Some(date) => Ok(date),
            None => Err(String::from_str(prefix).concat("input is out of range")),
        },
        Err(e) => Err(String::from_str(prefix).concat(e.as_str())),
    }
}

/// Parses a date written as `YYYY-MM-DD`. The reading is `chrono`'s; its
/// error comes back behind the words that ask for that format.
pub fn parse_date(s: &str) -> (r: Result<Date, String>)
    ensures
        is_date_result(
            r,
            checked_date(
                chrono_date(s@, "%Y-%m-%d"@),
                "Invalid date format. Please use YYYY-MM-DD: "@,
            ),
        ),
{
    date_from_parts(parse_from_str(s, "%Y-%m-%d"), "Invalid date format. Please use YYYY-MM-DD: ")
}

/// The date that `input` asks for: `Ok(None)` where it names none, so that
/// the caller takes today; the date it names; or a message where what it
/// names is no date.
pub fn requested_date(input: &LambdaInput) -> (r: Result<Option<Date>, String>)
    ensures
        match input.date {
            None => r == Ok::<Option<Date>, String>(None),
            Some(text) => match checked_date(
                chrono_date(text@, "%Y-%m-%d"@),
                "Invalid date format: "@,
            ) {
                Ok((year, month, day)) => r matches Ok(Some(date)) && date.year() == year
                    && date.month() == month && date.day() == day,
                Err(message) => r matches Err(m) && m@ == message,
            },
        },
{
    match &input.date {
        None => Ok(None),
        Some(text) => match date_from_parts(
            parse_from_str(text.as_str(), "%Y-%m-%d"),
            "Invalid date format: ",
        ) {
            Ok(date) => Ok(Some(date)),
            Err(m) => Err(m),
        },
    }
}

impl LambdaOutput {
    /// The report of a crossword that was saved as `filename`.
    pub fn success(filename: String) -> (r: LambdaOutput)
        ensures
            r.message@ == "Crossword downloaded successfully"@,
            r.filename == filename,
    {
        LambdaOutput { message: String::from_str("Crossword downloaded successfully"), filename }
    }
}

} // verus!
