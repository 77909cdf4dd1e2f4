//! Calendar days, as the feed writes them and as `chrono` reads them.

use vstd::prelude::*;

use crate::outside::civil_day;
use crate::text::digit_char;

verus! {

/// Whether `year` has a 29th of February in the Gregorian calendar.
pub open spec fn is_leap_year(year: int) -> bool {
    year % 4 == 0 && (year % 100 != 0 || year % 400 == 0)
}

/// The number of days of `month` in `year`; 0 for a month that does not exist.
pub open spec fn days_in_month(year: int, month: int) -> int {
    if month == 2 {
        if is_leap_year(year) {
            29
        } else {
            28
        }
    } else if month == 4 || month == 6 || month == 9 || month == 11 {
        30
    } else if 1 <= month <= 12 {
        31
    } else {
        0
    }
}

/// Whether `year`-`month`-`day` is a day of the Gregorian calendar in the
/// years 0 to 9999.
pub open spec fn is_calendar_day(year: int, month: int, day: int) -> bool {
    &&& 0 <= year <= 9999
    &&& 1 <= month <= 12
    &&& 1 <= day <= days_in_month(year, month)
}

/// The year that a date written as the number `YYYYMMDD` names.
pub open spec fn year_of(date: u32) -> int {
    date as int / 10000
}

/// The month that a date written as the number `YYYYMMDD` names.
pub open spec fn month_of(date: u32) -> int {
    (date as int / 100) % 100
}

/// The day of the month that a date written as the number `YYYYMMDD` names.
pub open spec fn day_of(date: u32) -> int {
    date as int % 100
}

/// Whether the number `date`, read as `YYYYMMDD`, names a calendar day.
pub open spec fn is_day_stamp(date: u32) -> bool {
    is_calendar_day(year_of(date), month_of(date), day_of(date))
}

/// The number of leap years from the year 0 up to, and without, `year`.
pub open spec fn leap_years_before(year: int) -> int {
    (year + 3) / 4 - (year + 99) / 100 + (year + 399) / 400
}

/// The number of days from the first day of the year 0 to the first day of
/// `year`.
pub open spec fn days_before_year(year: int) -> int {
    365 * year + leap_years_before(year)
}

/// The number of days of `year` that lie before the first day of `month`.
pub open spec fn days_before_month(year: int, month: int) -> int
    decreases month,
{
    if month <= 1 {
        0
    } else {
        days_before_month(year, month - 1) + days_in_month(year, month - 1)
    }
}

/// The number of days from 1970-01-01 to the given day; negative for a day
/// before it.
pub open spec fn days_since_epoch(year: int, month: int, day: int) -> int {
    days_before_year(year) + days_before_month(year, month) + (day - 1) - days_before_year(1970)
}

/// The seconds from 1970-01-01 00:00:00 UTC to the start of the given day:
/// 86400 for each day between them.
pub open spec fn midnight_of(year: int, month: int, day: int) -> int {
    86400 * days_since_epoch(year, month, day)
}

/// A calendar day written as `YYYY-MM-DD`, each part padded with zeros.
pub open spec fn iso_text(year: int, month: int, day: int) -> Seq<char> {
    seq![
        digit_char(year / 1000),
        digit_char(year / 100 % 10),
        digit_char(year / 10 % 10),
        digit_char(year % 10),
        '-',
        digit_char(month / 10),
        digit_char(month % 10),
        '-',
        digit_char(day / 10),
        digit_char(day % 10),
    ]
}

/// The Unix timestamp of the start, in UTC, of the day that `date` names.
pub open spec fn stamp_of(date: u32) -> int {
    midnight_of(year_of(date), month_of(date), day_of(date))
}

/// The day that `date` names, written as `YYYY-MM-DD`.
pub open spec fn label_text(date: u32) -> Seq<char> {
    iso_text(year_of(date), month_of(date), day_of(date))
}

/// Whether the number `date`, read as `YYYYMMDD`, names a calendar day.
pub fn check_day_stamp(date: u32) -> (ok: bool)
    ensures
        ok == is_day_stamp(date),
{
    if date > 99991231 {
        return false;
    }
    let year: i32 = (date / 10000) as i32;
    let month: u32 = (date / 100) % 100;
    let day: u32 = date % 100;
    civil_day(year, month, day).is_some()
}

/// The Unix timestamp of the start, in UTC, of the day that `date` names.
pub fn timestamp_of(date: u32) -> (t: i64)
    requires
        is_day_stamp(date),
    ensures
        t == stamp_of(date),
{
    let year: i32 = (date / 10000) as i32;
    let month: u32 = (date / 100) % 100;
    let day: u32 = date % 100;
    match civil_day(year, month, day) {
        Some(found) => found.timestamp,
        None => vstd::pervasive::unreached(),
    }
}

/// The day that `date` names, written as `YYYY-MM-DD`.
pub fn label_of(date: u32) -> (s: String)
    requires
        is_day_stamp(date),
    ensures
        s@ == label_text(date),
{
    let year: i32 = (date / 10000) as i32;
    let month: u32 = (date / 100) % 100;
    let day: u32 = date % 100;
    match civil_day(year, month, day) {
        Some(found) => found.label,
        None => vstd::pervasive::unreached(),
    }
}

/// A year is 365 days long, and a leap year one day longer.
pub proof fn lemma_year_length(year: int)
    requires
        0 <= year,
    ensures
        days_before_year(year + 1) - days_before_year(year) == days_before_month(year, 13),
        days_before_month(year, 13) == if is_leap_year(year) {
            366int
        } else {
            365int
        },
{
    reveal_with_fuel(days_before_month, 14);
}

/// The years before a later year hold the years before an earlier one.
pub proof fn lemma_years_grow(earlier: int, later: int)
    requires
        0 <= earlier <= later,
    ensures
        days_before_year(earlier) + 365 * (later - earlier) <= days_before_year(later),
    decreases later - earlier,
{
    if earlier < later {
        lemma_years_grow(earlier, later - 1);
        lemma_year_length(later - 1);
    }
}

/// The months before a later month hold the months before an earlier one,
/// and that earlier month.
pub proof fn lemma_months_grow(year: int, earlier: int, later: int)
    requires
        1 <= earlier < later <= 13,
    ensures
        days_before_month(year, earlier) + days_in_month(year, earlier) <= days_before_month(
            year,
            later,
        ),
    decreases later - earlier,
{
    if earlier + 1 < later {
        lemma_months_grow(year, earlier, later - 1);
    }
}

/// A later day starts at a later time: the time of a day grows with the
/// number that writes the day.
pub proof fn lemma_later_day_later_time(earlier: u32, later: u32)
    requires
        is_day_stamp(earlier),
        is_day_stamp(later),
        earlier < later,
    ensures
        stamp_of(earlier) < stamp_of(later),
{
    let (y1, m1, d1) = (year_of(earlier), month_of(earlier), day_of(earlier));
    let (y2, m2, d2) = (year_of(later), month_of(later), day_of(later));
    assert(earlier == y1 * 10000 + m1 * 100 + d1);
    assert(later == y2 * 10000 + m2 * 100 + d2);
    assert(y1 <= y2);
    if m2 > 1 {
        lemma_months_grow(y2, 1, m2);
    }
    assert(days_before_month(y2, m2) >= 0);
    if y1 < y2 {
        lemma_year_length(y1);
        lemma_years_grow(y1 + 1, y2);
        lemma_months_grow(y1, m1, 13);
        assert(days_since_epoch(y1, m1, d1) < days_since_epoch(y2, m2, d2));
    } else if m1 < m2 {
        lemma_months_grow(y1, m1, m2);
        assert(days_since_epoch(y1, m1, d1) < days_since_epoch(y2, m2, d2));
    } else {
        assert(m1 == m2);
        assert(d1 < d2);
    }
}

} // verus!
