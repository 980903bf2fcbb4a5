//! Due dates as the user writes them and dates as they are shown, both in
//! the machine's local time.

use std::fmt::Write;
use vstd::prelude::*;

verus! {

/// How a due date is written: day, month, year.
pub const INPUT_FORMAT: &'static str = "%d.%m.%Y";

/// How a date is shown: year, month, day.
pub const DISPLAY_FORMAT: &'static str = "%Y-%m-%d";

/// Why a date could not be read or shown.
#[derive(Debug, Clone, Copy, PartialEq, Eq, Structural)]
pub enum DateError {
    /// The text is no date in the expected form.
    Malformed,
    /// The date has no midnight in the local time zone.
    NoLocalTime,
    /// The timestamp is outside the range of dates that can be shown.
    InvalidTimestamp,
}

/// The calendar date, as year, month and day, that `chrono` reads out of
/// `text` under the format `format`, or `None` where it reads none.
pub uninterp spec fn parsed_date(text: Seq<char>, format: Seq<char>) -> Option<(i32, u32, u32)>;

/// Calls `chrono::NaiveDate::parse_from_str` and takes the date apart with
/// `Datelike::{year, month, day}`. Trusted: the result is a function of the
/// two texts alone, and a parse error comes back as `None`.
#[verifier::external_body]
fn parse_calendar_date(text: &str, format: &str) -> (r: Option<(i32, u32, u32)>)
    ensures
        r == parsed_date(text@, format@),
{
    match chrono::NaiveDate::parse_from_str(text, format) {
        Ok(date) => Some(
            (
                chrono::Datelike::year(&date),
                chrono::Datelike::month(&date),
                chrono::Datelike::day(&date),
            ),
        ),
        Err(_) => None,
    }
}

/// The Unix time of midnight of a calendar date, read as a time in UTC, as
/// `chrono` computes it; `None` where `chrono` has no such date.
pub uninterp spec fn utc_midnight(year: i32, month: u32, day: u32) -> Option<i64>;

/// The text that `chrono` writes for a Unix time under a format, at a
/// fixed offset of that many seconds east of UTC; `None` where the offset
/// is not under a day, the time is out of range or the format cannot be
/// written.
pub uninterp spec fn shown_at(timestamp: i64, offset: i32, format: Seq<char>) -> Option<Seq<char>>;

/// An offset from UTC of less than a day either way, in seconds: what
/// `chrono` admits as the offset of a time zone.
pub open spec fn day_offset(offset: i32) -> bool {
    -86_400 < offset < 86_400
}

/// The last second of the year 9999 in UTC.
pub const LAST_SECOND_OF_9999: i64 = 253_402_300_799;

/// Timestamps from 1970 to the end of 9999: a part of the range for which
/// `chrono` has a date.
pub open spec fn surely_shown(timestamp: i64) -> bool {
    0 <= timestamp <= LAST_SECOND_OF_9999
}

/// Calls `chrono::NaiveDate::from_ymd_opt`, `and_time` with midnight,
/// `and_utc` and `timestamp`. Trusted: the result is a function of the
/// date alone.
#[verifier::external_body]
fn utc_midnight_of(year: i32, month: u32, day: u32) -> (r: Option<i64>)
    ensures
        r == utc_midnight(year, month, day),
{
    let date = chrono::NaiveDate::from_ymd_opt(year, month, day)?;
    Some(date.and_time(chrono::NaiveTime::default()).and_utc().timestamp())
}

/// Calls `chrono::NaiveDate::from_ymd_opt`, `and_time` with midnight,
/// `and_local_timezone(Local)`, `earliest`, `offset` and `local_minus_utc`:
/// the offset from UTC, in seconds, that holds in the local time zone at
/// the first midnight of that date; `None` where the date has no midnight
/// there. Trusted: the offset is under a day either way. Nothing else is
/// claimed of it: it depends on the machine's time zone.
#[verifier::external_body]
fn local_midnight_offset(year: i32, month: u32, day: u32) -> (r: Option<i32>)
    ensures
        r matches Some(offset) ==> day_offset(offset),
{
    let date = chrono::NaiveDate::from_ymd_opt(year, month, day)?;
    let local = date.and_time(chrono::NaiveTime::default()).and_local_timezone(chrono::Local);
    let moment = local.earliest()?;
    Some(moment.offset().local_minus_utc())
}

/// Calls `chrono::TimeZone::timestamp_opt` on `Utc`, `earliest`,
/// `with_timezone(&Local)`, `offset` and `local_minus_utc`: the offset from
/// UTC, in seconds, that holds in the local time zone at that instant;
/// `None` where the timestamp is out of range. Trusted: the offset is under
/// a day either way, and a timestamp from 1970 to the end of 9999 is in
/// range. Nothing else is claimed of it: it depends on the machine's time
/// zone.
#[verifier::external_body]
fn local_offset(timestamp: i64) -> (r: Option<i32>)
    ensures
        r matches Some(offset) ==> day_offset(offset),
        surely_shown(timestamp) ==> r is Some,
{
    let moment = chrono::TimeZone::timestamp_opt(&chrono::Utc, timestamp, 0).earliest()?;
    Some(moment.with_timezone(&chrono::Local).offset().local_minus_utc())
}

/// Calls `chrono::FixedOffset::east_opt`, `TimeZone::timestamp_opt` on that
/// offset, `earliest` and `format`, and writes the outcome to a string.
/// Trusted: the result is a function of the three arguments alone. For the
/// year-month-day format, a timestamp from 1970 to the end of 9999 is
/// written at every offset under a day, and what is written has at least
/// ten characters (four or more for the year, two for the month, two for
/// the day, two hyphens).
#[verifier::external_body]
fn date_text_at(timestamp: i64, offset: i32, format: &str) -> (r: Option<String>)
    ensures
        match r {
            Some(text) => shown_at(timestamp, offset, format@) == Some(text@),
            None => shown_at(timestamp, offset, format@) is None,
        },
        format@ == DISPLAY_FORMAT@ && surely_shown(timestamp) && day_offset(offset) ==> r is Some,
        format@ == DISPLAY_FORMAT@ ==> (r matches Some(text) ==> text@.len() >= 10),
{
    let zone = chrono::FixedOffset::east_opt(offset)?;
    let moment = chrono::TimeZone::timestamp_opt(&zone, timestamp, 0).earliest()?;
    let mut text = String::new();
    match write!(text, "{}", moment.format(format)) {
        Ok(()) => Some(text),
        Err(_) => None,
    }
}

/// Calls `chrono::Utc::now` and `timestamp`: the current Unix time in
/// seconds. Nothing is claimed of it.
#[verifier::external_body]
pub(crate) fn current_timestamp() -> i64 {
    chrono::Utc::now().timestamp()
}

/// What reading a due date comes to, given the calendar date read from the
/// text and the Unix time of the local midnight of that date.
pub open spec fn input_date_result(
    parsed: Option<(i32, u32, u32)>,
    midnight: Option<i64>,
) -> Result<i64, DateError> {
    match parsed {
        None => Err(DateError::Malformed),
        Some(_) => match midnight {
            Some(t) => Ok(t),
            None => Err(DateError::NoLocalTime),
        },
    }
}

/// Decides `input_date_result`.
pub fn input_date_from(parsed: Option<(i32, u32, u32)>, midnight: Option<i64>) -> (r: Result<
    i64,
    DateError,
>)
    ensures
        r == input_date_result(parsed, midnight),
{
    match parsed {
        None => Err(DateError::Malformed),
        Some(_) => match midnight {
            Some(t) => Ok(t),
            None => Err(DateError::NoLocalTime),
        },
    }
}

/// The Unix time of a local midnight, given the Unix time of the same
/// midnight read as UTC and the local offset that holds at it: the one less
/// the other; none where either is missing or the difference is no `i64`.
pub open spec fn midnight_at(utc: Option<i64>, offset: Option<i32>) -> Option<i64> {
    match (utc, offset) {
        (Some(u), Some(o)) => if i64::MIN <= u - o <= i64::MAX {
            Some((u - o) as i64)
        } else {
            None
        },
        _ => None,
    }
}

/// The Unix time of the local midnight of a date that was read, given the
/// local offset that holds at it.
pub open spec fn local_midnight_of(parsed: Option<(i32, u32, u32)>, offset: Option<i32>) -> Option<
    i64,
> {
    match parsed {
        Some((year, month, day)) => midnight_at(utc_midnight(year, month, day), offset),
        None => None,
    }
}

/// What reading the text of a due date comes to, given the local offset
/// that holds at the midnight of the date, if it has one.
pub open spec fn read_date(text: Seq<char>, offset: Option<i32>) -> Result<i64, DateError> {
    let parsed = parsed_date(text, INPUT_FORMAT@);
    input_date_result(parsed, local_midnight_of(parsed, offset))
}

/// Decides `midnight_at`.
pub fn midnight_from(utc: Option<i64>, offset: Option<i32>) -> (r: Option<i64>)
    ensures
        r == midnight_at(utc, offset),
{
    match (utc, offset) {
        (Some(u), Some(o)) => u.checked_sub(o as i64),
        _ => None,
    }
}

/// Reads a due date written as day.month.year and gives the Unix time of
/// its midnight in local time: the Unix time of that midnight in UTC, less
/// the offset from UTC that holds in the local time zone at it, which is
/// under a day. The text is malformed exactly when `chrono` reads no date
/// out of it.
pub fn parse_input_date(s: &str) -> (r: Result<i64, DateError>)
    ensures
        (r matches Err(e) && e == DateError::Malformed) <==> parsed_date(s@, INPUT_FORMAT@) is None,
        r matches Err(e) ==> e == DateError::Malformed || e == DateError::NoLocalTime,
        exists|offset: Option<i32>|
            (offset matches Some(o) ==> day_offset(o)) && r == #[trigger] read_date(s@, offset),
{
    let parsed = parse_calendar_date(s, INPUT_FORMAT);
    let (utc, offset) = match parsed {
        Some((year, month, day)) => (
            utc_midnight_of(year, month, day),
            local_midnight_offset(year, month, day),
        ),
        None => (None, None),
    };
    let r = input_date_from(parsed, midnight_from(utc, offset));
    proof {
        assert(r == read_date(s@, offset));
    }
    r
}

/// The due timestamp that a read due date leaves a task with: the
/// timestamp where the date was read, none where it was not.
pub open spec fn due_of(read: Result<i64, DateError>) -> Option<i64> {
    match read {
        Ok(t) => Some(t),
        Err(_) => None,
    }
}

/// The due timestamp a new task gets from what the user wrote, given the
/// local offset that holds at the midnight of a date that can be read: none
/// where nothing was written or the text is no date.
pub open spec fn due_result(due: Option<String>, offset: Option<i32>) -> Option<i64> {
    match due {
        None => None,
        Some(text) => due_of(read_date(text@, offset)),
    }
}

/// Decides `due_of`.
pub fn due_from(read: Result<i64, DateError>) -> (r: Option<i64>)
    ensures
        r == due_of(read),
{
    match read {
        Ok(t) => Some(t),
        Err(_) => None,
    }
}

/// The due timestamp a new task gets from what the user wrote: none where
/// nothing was written or the text is no date, else the local midnight of
/// the date, as `parse_input_date` gives it.
pub fn due_timestamp(due: Option<String>) -> (r: Option<i64>)
    ensures
        due is None ==> r is None,
        due matches Some(text) && parsed_date(text@, INPUT_FORMAT@) is None ==> r is None,
        exists|offset: Option<i32>|
            (offset matches Some(o) ==> day_offset(o)) && r == #[trigger] due_result(due, offset),
{
    match due {
        None => {
            proof {
                assert(None::<i64> == due_result(due, None));
            }
            None
        },
        Some(text) => {
            let read = parse_input_date(text.as_str());
            proof {
                let offset = choose|offset: Option<i32>|
                    (offset matches Some(o) ==> day_offset(o)) && read == #[trigger] read_date(
                        text@,
                        offset,
                    );
                assert(due_of(read) == due_result(due, offset));
            }
            due_from(read)
        },
    }
}

/// `text` is what `chrono` writes, year-month-day, for the timestamp at
/// some offset from UTC under a day.
pub open spec fn shows(timestamp: i64, text: Seq<char>) -> bool {
    exists|offset: i32|
        day_offset(offset) && #[trigger] shown_at(timestamp, offset, DISPLAY_FORMAT@) == Some(text)
}

/// What showing a timestamp comes to, given the text that `chrono` wrote
/// for it, if it wrote one.
pub open spec fn local_str_result(shown: Option<String>) -> Result<String, DateError> {
    match shown {
        Some(text) => Ok(text),
        None => Err(DateError::InvalidTimestamp),
    }
}

/// Decides `local_str_result`.
pub fn local_str_from(shown: Option<String>) -> (r: Result<String, DateError>)
    ensures
        r == local_str_result(shown),
{
    match shown {
        Some(text) => Ok(text),
        None => Err(DateError::InvalidTimestamp),
    }
}

/// Shows a Unix time as a local date, year-month-day: the text that
/// `chrono` writes for it at the offset from UTC that holds in the local
/// time zone at that instant, which is under a day. A timestamp from 1970
/// to the end of 9999 is always shown; the text has at least ten
/// characters. Fails only with `InvalidTimestamp`, where `chrono` has no
/// date to show for it.
pub fn timestamp_to_local_str(timestamp: i64) -> (r: Result<String, DateError>)
    ensures
        surely_shown(timestamp) ==> r is Ok,
        r matches Ok(text) ==> text@.len() >= 10 && shows(timestamp, text@),
        r matches Err(e) ==> e == DateError::InvalidTimestamp,
{
    match local_offset(timestamp) {
        None => Err(DateError::InvalidTimestamp),
        Some(offset) => local_str_from(date_text_at(timestamp, offset, DISPLAY_FORMAT)),
    }
}

} // verus!
