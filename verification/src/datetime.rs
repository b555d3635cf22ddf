//! Calendar values as plain numbers, and the conversions between them and
//! text.

use chrono::{Datelike, NaiveDate, NaiveDateTime, NaiveTime, Timelike};
use std::fmt::Write;
use vstd::prelude::*;

verus! {

/// A date and a time of day without a time zone.
#[derive(Clone, Copy, Debug, PartialEq, Eq, Structural)]
pub struct Timestamp {
    pub year: i32,
    pub month: u32,
    pub day: u32,
    pub hour: u32,
    pub minute: u32,
    pub second: u32,
    pub nanosecond: u32,
}

/// A time of day.
#[derive(Clone, Copy, Debug, PartialEq, Eq, Structural)]
pub struct TimeOfDay {
    pub hour: u32,
    pub minute: u32,
    pub second: u32,
    pub nanosecond: u32,
}

/// What reading `text` as a date and time in the layout `fmt` gives.
pub uninterp spec fn parsed_datetime(text: Seq<char>, fmt: Seq<char>) -> Option<Timestamp>;

/// What reading `text` as a time of day in the layout `fmt` gives.
pub uninterp spec fn parsed_time(text: Seq<char>, fmt: Seq<char>) -> Option<TimeOfDay>;

/// What writing `t` in the layout `fmt` gives.
pub uninterp spec fn formatted_datetime(t: Timestamp, fmt: Seq<char>) -> Option<Seq<char>>;

/// What writing `t` in the layout `fmt` gives.
pub uninterp spec fn formatted_time(t: TimeOfDay, fmt: Seq<char>) -> Option<Seq<char>>;

/// Calls `chrono::NaiveDateTime::parse_from_str` and hands the fields of the
/// value over. The contract only names the outcome: the same text and layout
/// always give the same value, and an error of the parser gives `None`.
#[verifier::external_body]
pub(crate) fn read_datetime(text: &str, fmt: &str) -> (r: Option<Timestamp>)
    ensures
        r == parsed_datetime(text@, fmt@),
{
    match NaiveDateTime::parse_from_str(text, fmt) {
        Ok(t) => Some(
            Timestamp {
                year: t.year(),
                month: t.month(),
                day: t.day(),
                hour: t.hour(),
                minute: t.minute(),
                second: t.second(),
                nanosecond: t.nanosecond(),
            },
        ),
        Err(_) => None,
    }
}

/// Calls `chrono::NaiveTime::parse_from_str` and hands the fields of the value
/// over. The contract only names the outcome; an error of the parser gives
/// `None`.
#[verifier::external_body]
pub(crate) fn read_time(text: &str, fmt: &str) -> (r: Option<TimeOfDay>)
    ensures
        r == parsed_time(text@, fmt@),
{
    match NaiveTime::parse_from_str(text, fmt) {
        Ok(t) => Some(
            TimeOfDay {
                hour: t.hour(),
                minute: t.minute(),
                second: t.second(),
                nanosecond: t.nanosecond(),
            },
        ),
        Err(_) => None,
    }
}

/// Writes a date and time with `chrono::NaiveDateTime::format`. The contract
/// only names the outcome. `None` stands for fields that form no calendar
/// value and for a layout that the formatter refuses.
#[verifier::external_body]
pub(crate) fn write_datetime(t: &Timestamp, fmt: &str) -> (r: Option<String>)
    ensures
        crate::text::opt_text(r) == formatted_datetime(*t, fmt@),
{
    let date = NaiveDate::from_ymd_opt(t.year, t.month, t.day)?;
    let value = date.and_hms_nano_opt(t.hour, t.minute, t.second, t.nanosecond)?;
    let mut out = String::new();
    match write!(out, "{}", value.format(fmt)) {
        Ok(()) => Some(out),
        Err(_) => None,
    }
}

/// Writes a time of day with `chrono::NaiveTime::format`. The contract only
/// names the outcome. `None` stands for fields that form no time of day and
/// for a layout that the formatter refuses.
#[verifier::external_body]
pub(crate) fn write_time(t: &TimeOfDay, fmt: &str) -> (r: Option<String>)
    ensures
        crate::text::opt_text(r) == formatted_time(*t, fmt@),
{
    let value = NaiveTime::from_hms_nano_opt(t.hour, t.minute, t.second, t.nanosecond)?;
    let mut out = String::new();
    match write!(out, "{}", value.format(fmt)) {
        Ok(()) => Some(out),
        Err(_) => None,
    }
}

} // verus!
