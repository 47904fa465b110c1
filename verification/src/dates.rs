use vstd::prelude::*;
use chrono::Datelike;
use chrono::Timelike;

verus! {

/// A calendar day, held as the plain numbers that the feed's date texts carry.
#[derive(Clone, Copy, PartialEq, Eq, Structural, Debug)]
pub struct Date {
    pub year: i32,
    pub month: u32,
    pub day: u32,
}

/// A calendar day together with a time of day, second precision.
#[derive(Clone, Copy, PartialEq, Eq, Structural, Debug)]
pub struct DateTime {
    pub year: i32,
    pub month: u32,
    pub day: u32,
    pub hour: u32,
    pub minute: u32,
    pub second: u32,
}

/// What `chrono::NaiveDate::parse_from_str` yields for a text and a format,
/// reported as the parsed day's calendar fields, or `None` on a parse failure.
pub uninterp spec fn date_parse(s: Seq<char>, fmt: Seq<char>) -> Option<Date>;

/// What `chrono::NaiveDateTime::parse_from_str` yields for a text and a format,
/// reported as the parsed moment's calendar and clock fields, or `None` on a
/// parse failure.
pub uninterp spec fn datetime_parse(s: Seq<char>, fmt: Seq<char>) -> Option<DateTime>;

/// Relies on `chrono::NaiveDate::parse_from_str`: the result is a function of
/// the text and the format alone, and parse failures are reported as `Err`.
#[verifier::external_body]
pub fn parse_date(s: &str, fmt: &str) -> (r: Option<Date>)
    ensures
        r == date_parse(s@, fmt@),
{
    match chrono::NaiveDate::parse_from_str(s, fmt) {
        Ok(d) => Some(Date { year: d.year(), month: d.month(), day: d.day() }),
        Err(_) => None,
    }
}

/// Relies on `chrono::NaiveDateTime::parse_from_str`: the result is a function
/// of the text and the format alone, and parse failures are reported as `Err`.
#[verifier::external_body]
pub fn parse_datetime(s: &str, fmt: &str) -> (r: Option<DateTime>)
    ensures
        r == datetime_parse(s@, fmt@),
{
    match chrono::NaiveDateTime::parse_from_str(s, fmt) {
        Ok(d) => Some(
            DateTime {
                year: d.year(),
                month: d.month(),
                day: d.day(),
                hour: d.hour(),
                minute: d.minute(),
                second: d.second(),
            },
        ),
        Err(_) => None,
    }
}

} // verus!
