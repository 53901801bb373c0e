//! Calendar dates at day granularity.
//!
//! A [`Date`] is a day of the proleptic Gregorian calendar, held as its day
//! number (January 1 of year 1 is day 1). Only days that can be written as
//! `YYYY-MM-DD` with a four-digit year are dates: 0000-01-01 to 9999-12-31.
//! Text, and the day of the week, come from `chrono`.

use chrono::Datelike;
use vstd::prelude::*;

verus! {

/// Day number of 0000-01-01.
pub const MIN_DAYS: i32 = -365;

/// Day number of 9999-12-31.
pub const MAX_DAYS: i32 = 3_652_059;

/// The day of the week of the day with number `days`, counted from Monday (0)
/// to Sunday (6), as `chrono` computes it.
pub uninterp spec fn weekday_number(days: int) -> int;

/// The text `chrono` writes for the day with number `days` under `%Y-%m-%d`.
pub uninterp spec fn date_text(days: int) -> Seq<char>;

/// The day number of the date that `chrono` reads from `text` under
/// `%Y-%m-%d`, or `None` where it reads none.
pub uninterp spec fn parsed_days(text: Seq<char>) -> Option<int>;

/// Whether `days` is the number of a day between 0000-01-01 and 9999-12-31.
pub open spec fn in_calendar(days: int) -> bool {
    MIN_DAYS <= days <= MAX_DAYS
}

/// A calendar date without a time of day.
#[derive(Clone, Copy, Debug, PartialEq, Eq, Structural, Hash)]
pub struct Date {
    days: i32,
}

/// A text that is no `YYYY-MM-DD` date.
#[derive(Clone, Copy, Debug, PartialEq, Eq, Structural)]
pub struct DateParseError;

impl View for Date {
    type V = int;

    /// The date's day number.
    closed spec fn view(&self) -> int {
        self.days as int
    }
}

/// `chrono::Datelike::weekday` on the date that
/// `chrono::NaiveDate::from_num_days_from_ce_opt` makes of `days`, numbered
/// by `chrono::Weekday::num_days_from_monday`. Trusted, not proved: `chrono`
/// has a date for every day of the calendar, the result is the named day of
/// the week, and it lies between 0 (Monday) and 6 (Sunday).
#[verifier::external_body]
fn days_from_monday(days: i32) -> (n: u8)
    requires
        in_calendar(days as int),
    ensures
        n as int == weekday_number(days as int),
        n < 7,
{
    chrono::NaiveDate::from_num_days_from_ce_opt(days).unwrap().weekday().num_days_from_monday() as u8
}

/// `chrono::NaiveDate::format` with `%Y-%m-%d` on the date that
/// `chrono::NaiveDate::from_num_days_from_ce_opt` makes of `days`. Trusted,
/// not proved: `chrono` has a date for every day of the calendar, and the
/// result is the named text.
#[verifier::external_body]
fn format_days(days: i32) -> (text: String)
    requires
        in_calendar(days as int),
    ensures
        text@ == date_text(days as int),
{
    chrono::NaiveDate::from_num_days_from_ce_opt(days).unwrap().format("%Y-%m-%d").to_string()
}

/// `chrono::NaiveDate::parse_from_str` with `%Y-%m-%d`, and
/// `chrono::Datelike::num_days_from_ce` on the date it reads. Trusted, not
/// proved: the result is the named day number, `None` where `chrono`
/// reports an error.
#[verifier::external_body]
fn parse_days(text: &str) -> (days: Option<i32>)
    ensures
        days.is_some() == parsed_days(text@).is_some(),
        days matches Some(n) ==> parsed_days(text@) == Some(n as int),
{
    match chrono::NaiveDate::parse_from_str(text, "%Y-%m-%d") {
        Ok(date) => Some(date.num_days_from_ce()),
        Err(_) => None,
    }
}

impl Date {
    #[verifier::type_invariant]
    spec fn within_calendar(self) -> bool {
        in_calendar(self.days as int)
    }

    /// The date with day number `days`, if there is one.
    pub fn from_days(days: i32) -> (date: Option<Date>)
        ensures
            date.is_some() == in_calendar(days as int),
            date matches Some(d) ==> d@ == days,
    {
        if MIN_DAYS <= days && days <= MAX_DAYS {
            Some(Date { days })
        } else {
            None
        }
    }

    /// The date's day number.
    pub fn days(&self) -> (days: i32)
        ensures
            days == self@,
            in_calendar(days as int),
    {
        proof {
            use_type_invariant(self);
        }
        self.days
    }

    /// Two dates are the same exactly if their day numbers are.
    pub proof fn lemma_same_day(self, other: Date)
        ensures
            self@ == other@ <==> self == other,
    {
    }

    /// The day of the week, counted from Monday (0) to Sunday (6).
    pub fn weekday(&self) -> (n: u8)
        ensures
            n as int == weekday_number(self@),
            n < 7,
    {
        proof {
            use_type_invariant(self);
        }
        days_from_monday(self.days)
    }
}

/// Writes a date as `YYYY-MM-DD`.
pub fn date_to_string(date: Date) -> (text: String)
    ensures
        text@ == date_text(date@),
{
    format_days(date.days())
}

/// The date that `days` stands for when it was read from a text: the date
/// with that number, unless nothing was read or the day lies outside the
/// calendar.
pub open spec fn date_of_parsed(days: Option<int>) -> Option<int> {
    match days {
        Some(n) if in_calendar(n) => Some(n),
        _ => None,
    }
}

/// Whether `text` is a date of the calendar, written as `YYYY-MM-DD`.
pub open spec fn is_date_text(text: Seq<char>) -> bool {
    date_of_parsed(parsed_days(text)).is_some()
}

/// Turns what was read from a text into a date.
pub fn date_from_parsed(days: Option<i32>) -> (date: Result<Date, DateParseError>)
    ensures
        match date {
            Ok(d) => days.is_some() && d@ == days.unwrap() && in_calendar(d@),
            Err(_) => days.is_none() || !in_calendar(days.unwrap() as int),
        },
{
    match days {
        Some(n) => match Date::from_days(n) {
            Some(d) => Ok(d),
            None => Err(DateParseError),
        },
        None => Err(DateParseError),
    }
}

/// Reads a `YYYY-MM-DD` date.
pub fn string_to_date(text: &str) -> (date: Result<Date, DateParseError>)
    ensures
        match date {
            Ok(d) => date_of_parsed(parsed_days(text@)) == Some(d@),
            Err(_) => date_of_parsed(parsed_days(text@)).is_none(),
        },
{
    date_from_parsed(parse_days(text))
}

} // verus!
