//! Fixed-interval review scheduling over calendar days.
//!
//! A calendar date is held as its epoch-day number: the count of days since
//! 1970-01-01 in the proleptic Gregorian calendar, the numbering chrono uses in
//! `NaiveDate::to_epoch_days`. Adding days to a date is then integer addition;
//! parsing and printing dates, and reading the clock, are left to chrono.

use vstd::prelude::*;
use crate::level::Level;

verus! {

/// Epoch-day number of -262143-01-01, the first date chrono's `NaiveDate` holds.
pub const FIRST_EPOCH_DAY: i32 = -96465292;

/// Epoch-day number of 262142-12-31, the last date chrono's `NaiveDate` holds.
pub const LAST_EPOCH_DAY: i32 = 95026236;

/// Milliseconds in one UTC day.
pub const MILLIS_PER_DAY: i64 = 86400000;

/// A day number that chrono can turn into a calendar date.
pub open spec fn in_calendar(day: int) -> bool {
    FIRST_EPOCH_DAY <= day <= LAST_EPOCH_DAY
}

/// The epoch day of the date that a `YYYY-MM-DD` text denotes, or `None`
/// where chrono does not read the text as such a date.
pub uninterp spec fn parsed_epoch_day(s: Seq<char>) -> Option<int>;

/// The `YYYY-MM-DD` text of the date with the given epoch-day number.
pub uninterp spec fn day_text(day: int) -> Seq<char>;

/// Relies on chrono's `NaiveDate::parse_from_str` with the format `%Y-%m-%d`,
/// followed by `NaiveDate::to_epoch_days`: every date it yields lies in
/// `NaiveDate`'s range.
#[verifier::external_body]
fn parse_epoch_day(s: &str) -> (r: Option<i32>)
    ensures
        match r {
            Some(d) => parsed_epoch_day(s@) == Some(d as int) && in_calendar(d as int),
            None => parsed_epoch_day(s@) is None,
        },
{
    match chrono::NaiveDate::parse_from_str(s, "%Y-%m-%d") {
        Ok(d) => Some(d.to_epoch_days()),
        Err(_) => None,
    }
}

/// The epoch day of the date that the `YYYY-MM-DD` text `s` denotes.
pub fn parse_day(s: &str) -> (r: Option<i32>)
    ensures
        match r {
            Some(d) => parsed_epoch_day(s@) == Some(d as int) && in_calendar(d as int),
            None => parsed_epoch_day(s@) is None,
        },
{
    parse_epoch_day(s)
}

/// Relies on chrono's `NaiveDate::from_epoch_days`, which yields a date exactly
/// on `NaiveDate`'s range, and on formatting that date with `%Y-%m-%d`.
#[verifier::external_body]
fn epoch_day_text(day: i32) -> (r: Option<String>)
    ensures
        match r {
            Some(t) => in_calendar(day as int) && t@ == day_text(day as int),
            None => !in_calendar(day as int),
        },
{
    match chrono::NaiveDate::from_epoch_days(day) {
        Some(d) => Some(d.format("%Y-%m-%d").to_string()),
        None => None,
    }
}

/// The `YYYY-MM-DD` text of epoch day `day`, if chrono represents that date.
pub fn format_day(day: i32) -> (r: Option<String>)
    ensures
        text_view(r) == (if in_calendar(day as int) {
            Some(day_text(day as int))
        } else {
            None
        }),
{
    epoch_day_text(day)
}

/// Relies on chrono's `Utc::now`, read once, with `DateTime::timestamp_millis`
/// and `DateTime::date_naive` followed by `NaiveDate::to_epoch_days`: the UTC
/// day is the day that holds that millisecond, and it lies in `NaiveDate`'s
/// range. On a machine whose clock reads outside what chrono represents (off
/// wasm, also before the Unix epoch) `Utc::now` panics instead of returning.
/// Returns (milliseconds since the Unix epoch, epoch day).
#[verifier::external_body]
pub(crate) fn clock_now() -> (r: (i64, i32))
    ensures
        in_calendar(r.1 as int),
        r.1 as int == r.0 as int / MILLIS_PER_DAY as int,
{
    let now = chrono::Utc::now();
    (now.timestamp_millis(), now.date_naive().to_epoch_days())
}

/// Days until the next review after a review rated `l`.
pub open spec fn interval_days(l: Level) -> int {
    match l {
        Level::AGAIN => 1,
        Level::HARD => 3,
        Level::GOOD => 7,
        Level::EASY => 30,
    }
}

/// The text of the date `interval_days(l)` after `anchor`, if chrono holds it.
pub open spec fn next_review_text(anchor: int, l: Level) -> Option<Seq<char>> {
    if in_calendar(anchor + interval_days(l)) {
        Some(day_text(anchor + interval_days(l)))
    } else {
        None
    }
}

/// The text that an optional `String` holds, as a sequence of characters.
pub open spec fn text_view(r: Option<String>) -> Option<Seq<char>> {
    match r {
        Some(t) => Some(t@),
        None => None,
    }
}

/// Days until the next review after a review rated `level`.
pub fn review_interval(level: Level) -> (r: i32)
    ensures
        r == interval_days(level),
{
    match level {
        Level::AGAIN => 1,
        Level::HARD => 3,
        Level::GOOD => 7,
        Level::EASY => 30,
    }
}

/// The date text of the next review when the last one, rated `level`, took
/// place on epoch day `anchor_day`. `None` where that date lies past the last
/// date chrono represents.
pub fn next_review_from(anchor_day: i32, level: Level) -> (r: Option<String>)
    ensures
        text_view(r) == next_review_text(anchor_day as int, level),
{
    let days = review_interval(level);
    if anchor_day > LAST_EPOCH_DAY - days {
        return None;
    }
    epoch_day_text(anchor_day + days)
}

/// The next review date, as `YYYY-MM-DD`, after a review rated `level` on
/// `current_date` (a `YYYY-MM-DD` text), where today is epoch day `today`. A
/// text that is no such date is not an error: `today` is taken as the anchor
/// instead. `None` only where the result would lie outside the dates chrono
/// represents.
pub fn next_review_on(current_date: &str, level: Level, today: i32) -> (r: Option<String>)
    ensures
        match parsed_epoch_day(current_date@) {
            Some(d) => text_view(r) == next_review_text(d, level),
            None => text_view(r) == next_review_text(today as int, level),
        },
{
    let anchor = match parse_epoch_day(current_date) {
        Some(d) => d,
        None => today,
    };
    next_review_from(anchor, level)
}

/// The next review date, as `YYYY-MM-DD`, after a review rated `level` on
/// `current_date` (a `YYYY-MM-DD` text). A text that is no such date is not
/// an error: the current UTC date is taken as the anchor instead. `None` only
/// where the result would lie past the last date chrono represents.
pub fn calculate_next_review(current_date: &str, level: &Level) -> (r: Option<String>)
    ensures
        match parsed_epoch_day(current_date@) {
            Some(d) => text_view(r) == next_review_text(d, *level),
            None => exists|today: int|
                in_calendar(today) && text_view(r) == #[trigger] next_review_text(today, *level),
        },
{
    let today = clock_now().1;
    next_review_on(current_date, *level, today)
}

} // verus!
