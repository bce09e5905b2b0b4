use vstd::prelude::*;
use vstd::string::StringExecFns;

use crate::report::{decimal, two_digits};

verus! {

/// A calendar date as year, month and day.
#[derive(Clone, Copy, Debug, PartialEq, Eq, Structural)]
pub struct Date {
    pub year: i32,
    pub month: u32,
    pub day: u32,
}

/// A calendar date with a time of day, to the second.
#[derive(Clone, Copy, Debug, PartialEq, Eq, Structural)]
pub struct DateTime {
    pub date: Date,
    pub hour: u32,
    pub minute: u32,
    pub second: u32,
}

/// A stored timestamp that does not read as `YYYY-MM-DD HH:MM:SS`.
#[derive(Clone, Copy, Debug, PartialEq, Eq, Structural)]
pub struct DateParseError;

impl Date {
    /// A well-formed date has a month in 1..=12 and a day in 1..=31.
    pub open spec fn wf(&self) -> bool {
        1 <= self.month <= 12 && 1 <= self.day <= 31
    }

    pub open spec fn fields(&self) -> (int, int, int) {
        (self.year as int, self.month as int, self.day as int)
    }
}

impl DateTime {
    pub open spec fn wf(&self) -> bool {
        self.date.wf() && self.hour < 24 && self.minute < 60 && self.second < 60
    }

    pub open spec fn fields(&self) -> (int, int, int, int, int, int) {
        (
            self.date.year as int,
            self.date.month as int,
            self.date.day as int,
            self.hour as int,
            self.minute as int,
            self.second as int,
        )
    }
}

/// The date read from a stored timestamp, as year, month and day, or `None`
/// where it does not read.
pub uninterp spec fn stored_date(text: Seq<char>) -> Option<(int, int, int)>;

/// The date and time read from a stored timestamp, or `None` where it does
/// not read.
pub uninterp spec fn stored_date_time(text: Seq<char>) -> Option<(int, int, int, int, int, int)>;

/// The rendering of a date by a strftime-style format.
pub uninterp spec fn formatted_date(year: int, month: int, day: int, format: Seq<char>) -> Seq<char>;

/// Relies on chrono's `NaiveDate::parse_from_str` with the format
/// `%Y-%m-%d %H:%M:%S`: the outcome depends on the text alone, and a parsed
/// date is a calendar date.
#[verifier::external_body]
fn parse_stored_date(text: &str) -> (r: Option<Date>)
    ensures
        r.is_some() ==> stored_date(text@) == Some(r.unwrap().fields()) && r.unwrap().wf(),
        r.is_none() ==> stored_date(text@).is_none(),
{
    match chrono::NaiveDate::parse_from_str(text, "%Y-%m-%d %H:%M:%S") {
        Ok(d) => Some(Date {
            year: chrono::Datelike::year(&d),
            month: chrono::Datelike::month(&d),
            day: chrono::Datelike::day(&d),
        }),
        Err(_) => None,
    }
}

/// Relies on chrono's `NaiveDateTime::parse_from_str` with the format
/// `%Y-%m-%d %H:%M:%S`: the outcome depends on the text alone, and a parsed
/// value is a calendar date with a time of day (`Timelike::second` is below 60).
#[verifier::external_body]
fn parse_stored_date_time(text: &str) -> (r: Option<DateTime>)
    ensures
        r.is_some() ==> stored_date_time(text@) == Some(r.unwrap().fields()) && r.unwrap().wf(),
        r.is_none() ==> stored_date_time(text@).is_none(),
{
    match chrono::NaiveDateTime::parse_from_str(text, "%Y-%m-%d %H:%M:%S") {
        Ok(t) => Some(DateTime {
            date: Date {
                year: chrono::Datelike::year(&t),
                month: chrono::Datelike::month(&t),
                day: chrono::Datelike::day(&t),
            },
            hour: chrono::Timelike::hour(&t),
            minute: chrono::Timelike::minute(&t),
            second: chrono::Timelike::second(&t),
        }),
        Err(_) => None,
    }
}

/// A Gregorian leap year: divisible by 4, and by 400 where divisible by 100.
pub open spec fn leap_year(year: int) -> bool {
    year % 4 == 0 && (year % 100 != 0 || year % 400 == 0)
}

/// The number of days of a month of a year.
pub open spec fn days_in_month(year: int, month: int) -> int {
    if month == 2 {
        if leap_year(year) {
            29
        } else {
            28
        }
    } else if month == 4 || month == 6 || month == 9 || month == 11 {
        30
    } else {
        31
    }
}

/// A day of the proleptic Gregorian calendar, within the years that a date
/// can hold (-262143 to 262142).
pub open spec fn calendar_date(date: Date) -> bool {
    &&& -262143 <= date.year <= 262142
    &&& 1 <= date.month <= 12
    &&& 1 <= date.day <= days_in_month(date.year as int, date.month as int)
}

/// The decimal notation of `n`, padded with zeros to at least four digits.
pub open spec fn four_digits(n: nat) -> Seq<char> {
    if n < 10 {
        seq!['0', '0', '0'] + decimal(n)
    } else if n < 100 {
        seq!['0', '0'] + decimal(n)
    } else if n < 1000 {
        seq!['0'] + decimal(n)
    } else {
        decimal(n)
    }
}

/// A year as `%Y` writes it: four digits from 0 to 9999, and a sign with at
/// least four digits outside that range.
pub open spec fn year_text(year: int) -> Seq<char> {
    if 0 <= year <= 9999 {
        four_digits(year as nat)
    } else if year < 0 {
        seq!['-'] + four_digits((-year) as nat)
    } else {
        seq!['+'] + decimal(year as nat)
    }
}

/// A date as `%Y-%m-%d` writes it.
pub open spec fn ymd_text(date: Date) -> Seq<char> {
    year_text(date.year as int) + seq!['-'] + two_digits(date.month as nat) + seq!['-'] + two_digits(
        date.day as nat,
    )
}

/// The formats that dates are rendered with; each is a valid chrono format,
/// which its rendering needs in order not to panic.
pub open spec fn date_format_supported(format: Seq<char>) -> bool {
    format == "%Y-%m-%d"@ || format == "%A"@ || format == "%-e %B, %Y"@
}

/// Relies on chrono's `NaiveDate::from_ymd_opt`, which is `None` exactly for
/// a day that is not in the calendar or lies outside chrono's years
/// (`MIN_YEAR` to `MAX_YEAR`), and on `NaiveDate::format` for the text, which
/// cannot fail with these formats. With `%Y-%m-%d` the year is written by
/// `write_year` (four zero-padded digits from 0 to 9999, a sign outside) and
/// month and day as two zero-padded digits.
#[verifier::external_body]
fn render_date(date: Date, format: &str) -> (r: Option<String>)
    requires
        date_format_supported(format@),
    ensures
        r.is_some() == calendar_date(date),
        r.is_some() ==> r.unwrap()@ == formatted_date(date.year as int, date.month as int, date.day as int, format@),
        r.is_some() && format@ == "%Y-%m-%d"@ ==> r.unwrap()@ == ymd_text(date),
{
    chrono::NaiveDate::from_ymd_opt(date.year, date.month, date.day).map(|d| d.format(format).to_string())
}

/// The text of an optional stored column, empty where it is absent.
pub open spec fn text_or_empty(input: Option<&str>) -> Seq<char> {
    match input {
        Some(s) => s@,
        None => Seq::empty(),
    }
}

/// Reads the date of a stored `YYYY-MM-DD HH:MM:SS` timestamp; an absent
/// column reads as empty text.
pub fn sql_to_date(input: Option<&str>) -> (r: Result<Date, DateParseError>)
    ensures
        match stored_date(text_or_empty(input)) {
            Some(f) => r.is_ok() && r.unwrap().fields() == f && r.unwrap().wf(),
            None => r == Err::<Date, DateParseError>(DateParseError),
        },
{
    let text: &str = match input {
        Some(s) => s,
        None => "",
    };
    proof {
        reveal_strlit("");
    }
    assert(text@ == text_or_empty(input));
    match parse_stored_date(text) {
        Some(d) => Ok(d),
        None => Err(DateParseError),
    }
}

/// Reads a stored `YYYY-MM-DD HH:MM:SS` timestamp; an absent column reads as
/// empty text.
pub fn sql_to_datetime(input: Option<&str>) -> (r: Result<DateTime, DateParseError>)
    ensures
        match stored_date_time(text_or_empty(input)) {
            Some(f) => r.is_ok() && r.unwrap().fields() == f && r.unwrap().wf(),
            None => r == Err::<DateTime, DateParseError>(DateParseError),
        },
{
    let text: &str = match input {
        Some(s) => s,
        None => "",
    };
    proof {
        reveal_strlit("");
    }
    assert(text@ == text_or_empty(input));
    match parse_stored_date_time(text) {
        Some(t) => Ok(t),
        None => Err(DateParseError),
    }
}

/// A date as the CSV export writes it, `YYYY-MM-DD`.
pub open spec fn iso_date_text(date: Date) -> Seq<char> {
    ymd_text(date)
}

/// The English name of a date's weekday.
pub open spec fn weekday_text(date: Date) -> Seq<char> {
    formatted_date(date.year as int, date.month as int, date.day as int, "%A"@)
}

/// A date written out as day, month name and year (`5 March, 2021`).
pub open spec fn long_date_text(date: Date) -> Seq<char> {
    formatted_date(date.year as int, date.month as int, date.day as int, "%-e %B, %Y"@)
}

/// Renders a date as `YYYY-MM-DD`, or `None` for a day that is not in the
/// calendar.
pub fn iso_date(date: Date) -> (r: Option<String>)
    ensures
        r.is_some() == calendar_date(date),
        r.is_some() ==> r.unwrap()@ == iso_date_text(date),
{
    render_date(date, "%Y-%m-%d")
}

/// The heading of a day in the text report: its weekday name and its date
/// written out (`(5 March, 2021)`), or `None` for a day that is not in the
/// calendar.
pub fn day_heading(date: Date) -> (r: Option<(String, String)>)
    ensures
        r.is_some() == calendar_date(date),
        r.is_some() ==> {
            &&& r.unwrap().0@ == weekday_text(date)
            &&& r.unwrap().1@ == seq!['('] + long_date_text(date) + seq![')']
        },
{
    let weekday = match render_date(date, "%A") {
        Some(w) => w,
        None => return None,
    };
    let long = match render_date(date, "%-e %B, %Y") {
        Some(l) => l,
        None => return None,
    };
    let mut text = String::from_str("(");
    text.append(long.as_str());
    text.append(")");
    proof {
        reveal_strlit("(");
        reveal_strlit(")");
    }
    assert(text@ =~= seq!['('] + long_date_text(date) + seq![')']);
    Some((weekday, text))
}

} // verus!
