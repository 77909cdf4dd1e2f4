//! What this library takes for granted of code that it does not verify:
//! the crates `chrono`, `num_format` and `uuid`, and the strings of the
//! standard library where `vstd` says nothing of them.
//!
//! Nothing in this file is proved. Each item says which function it stands
//! for and what it claims of it.

use vstd::prelude::*;

use crate::calendar::{is_calendar_day, iso_text, midnight_of};
use crate::chart::is_uuid_text;
use crate::text::grouped;

verus! {

/// What `chrono` tells of a calendar day.
pub struct CivilDay {
    /// The seconds from 1970-01-01 00:00:00 UTC to the start of the day.
    pub timestamp: i64,
    /// The day written as `YYYY-MM-DD`.
    pub label: String,
}

/// Calls `chrono::NaiveDate::from_ymd_opt` and, for the day it makes, takes
/// the Unix timestamp of that day's midnight in UTC (`and_time`, `and_utc`,
/// `DateTime::timestamp`) and the day as its `Display` writes it.
///
/// Claimed of `chrono`: for a year from 0 to 9999 a date is made exactly
/// when the day exists in the Gregorian calendar; the timestamp is 86400
/// for each day from 1970-01-01 to that day, whatever the time zone of the
/// machine; and such a day is written as four digits of the year, two of
/// the month and two of the day, with a hyphen between them.
#[verifier::external_body]
pub(crate) fn civil_day(year: i32, month: u32, day: u32) -> (r: Option<CivilDay>)
    requires
        0 <= year <= 9999,
    ensures
        r is Some <==> is_calendar_day(year as int, month as int, day as int),
        r matches Some(found) ==> found.timestamp == midnight_of(
            year as int,
            month as int,
            day as int,
        ) && found.label@ == iso_text(year as int, month as int, day as int),
{
    match chrono::NaiveDate::from_ymd_opt(year, month, day) {
        Some(date) => Some(
            CivilDay {
                timestamp: date.and_time(chrono::NaiveTime::MIN).and_utc().timestamp(),
                label: date.to_string(),
            },
        ),
        None => None,
    }
}

/// Calls `num_format::ToFormattedString::to_formatted_string` with
/// `num_format::Locale::en`.
///
/// Claimed of `num_format`: in that locale a number is written in base ten
/// with a comma before every group of three digits, counted from the right.
#[verifier::external_body]
pub(crate) fn grouped_text(n: u64) -> (text: String)
    ensures
        text@ == grouped(n as nat),
{
    num_format::ToFormattedString::to_formatted_string(&n, &num_format::Locale::en)
}

/// Calls `uuid::Uuid::new_v4` and writes the identifier out with its
/// `Display`.
///
/// Claimed of `uuid`: the identifier is written as 36 characters, digits
/// of base sixteen in lower case with a hyphen at the places 8, 13, 18 and
/// 23. Which digits they are is left to chance: nothing is claimed of
/// that.
#[verifier::external_body]
pub(crate) fn fresh_id() -> (id: String)
    ensures
        is_uuid_text(id@),
{
    uuid::Uuid::new_v4().to_string()
}

/// `str`'s `==`: two string slices are equal exactly when they hold the
/// same characters.
pub assume_specification[ <str as PartialEq>::eq ](a: &str, b: &str) -> (same: bool)
    ensures
        same == (a@ == b@),
;

/// `String::push` puts one character at the end of the string.
pub assume_specification[ String::push ](text: &mut String, c: char)
    ensures
        final(text)@ == old(text)@.push(c),
;

} // verus!
