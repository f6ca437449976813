//! Instants: milliseconds since 1970-01-01 00:00:00 UTC.

use crate::text::nat_text;
use chrono::DateTime;
use vstd::prelude::*;

verus! {

/// An instant, in milliseconds since 1970-01-01 00:00:00 UTC.
pub type Millis = i64;

/// The last instant with a four-digit year.
pub const LAST_MILLIS: i64 = 253_402_300_799_999;

/// "YYYY-MM-DD HH:MM:SS.mmm", for tables.
pub const EVENT_TIME_PATTERN: &'static str = "%Y-%m-%d %H:%M:%S%.3f";

/// "YYYY-Mon-DD HH:MM:SS.mmm", for header reports.
pub const HEADER_TIME_PATTERN: &'static str = "%Y-%b-%d %H:%M:%S%.3f";

/// "YYYY-MM-DD HH:MM:SS".
pub const START_TIME_PATTERN: &'static str = "%Y-%m-%d %H:%M:%S";

/// "YYYY-MM-DD", for the folders of a day.
pub const DAY_PATTERN: &'static str = "%Y-%m-%d";

/// Days from 1970-01-01 to a date of the Gregorian calendar.
pub open spec fn day_number(year: int, month: int, day: int) -> int {
    let y = if month <= 2 { year - 1 } else { year };
    let m = if month <= 2 { month + 9 } else { month - 3 };
    365 * y + y / 4 - y / 100 + y / 400 + (153 * m + 2) / 5 + day - 1 - 719468
}

/// The year, month and day that lie `days` after 1970-01-01.
pub open spec fn date_of(days: int) -> (int, int, int) {
    let z = days + 719468;
    let doe = z % 146097;
    let yoe = (doe - doe / 1460 + doe / 36524 - doe / 146096) / 365;
    let doy = doe - (365 * yoe + yoe / 4 - yoe / 100);
    let mp = (5 * doy + 2) / 153;
    let month = if mp < 10 { mp + 3 } else { mp - 9 };
    let year = yoe + 400 * (z / 146097) + if month <= 2 { 1int } else { 0int };
    (year, month, doy - (153 * mp + 2) / 5 + 1)
}

/// `n` in decimal with at least `width` digits, filled up with zeros.
pub open spec fn padded(n: nat, width: nat) -> Seq<char> {
    let digits = nat_text(n);
    Seq::new((width - digits.len()) as nat, |i: int| '0') + digits
}

/// The English three-letter name of a month.
pub open spec fn month_name(month: int) -> Seq<char> {
    if month == 1 { "Jan"@ } else if month == 2 { "Feb"@ } else if month == 3 { "Mar"@ }
    else if month == 4 { "Apr"@ } else if month == 5 { "May"@ } else if month == 6 { "Jun"@ }
    else if month == 7 { "Jul"@ } else if month == 8 { "Aug"@ } else if month == 9 { "Sep"@ }
    else if month == 10 { "Oct"@ } else if month == 11 { "Nov"@ } else { "Dec"@ }
}

/// The UTC date of an instant, its month as a number or by name.
pub open spec fn date_text(millis: int, named: bool) -> Seq<char> {
    let (year, month, day) = date_of(millis / 86_400_000);
    padded(year as nat, 4) + seq!['-'] + (if named {
        month_name(month)
    } else {
        padded(month as nat, 2)
    }) + seq!['-'] + padded(day as nat, 2)
}

/// The UTC time of day of an instant, down to the second.
pub open spec fn time_text(millis: int) -> Seq<char> {
    let seconds = millis / 1000 % 86_400;
    padded((seconds / 3600) as nat, 2) + seq![':'] + padded((seconds / 60 % 60) as nat, 2)
        + seq![':'] + padded((seconds % 60) as nat, 2)
}

/// "YYYY-MM-DD HH:MM:SS.mmm".
pub open spec fn event_time(millis: int) -> Seq<char> {
    date_text(millis, false) + seq![' '] + time_text(millis) + seq!['.'] + padded(
        (millis % 1000) as nat,
        3,
    )
}

/// "YYYY-Mon-DD HH:MM:SS.mmm".
pub open spec fn header_time(millis: int) -> Seq<char> {
    date_text(millis, true) + seq![' '] + time_text(millis) + seq!['.'] + padded(
        (millis % 1000) as nat,
        3,
    )
}

/// "YYYY-MM-DD HH:MM:SS".
pub open spec fn start_time(millis: int) -> Seq<char> {
    date_text(millis, false) + seq![' '] + time_text(millis)
}

/// `chrono::DateTime::format`: the instant in UTC, laid out by a pattern.
/// Stated for the four patterns of this library and for years of four
/// digits: the date as zero-padded numbers (`%b`: the month's English
/// three-letter name), the time of day, and for `%.3f` a dot and three digits
/// of milliseconds.
#[verifier::external_body]
fn format_instant(millis: Millis, pattern: &str) -> (r: String)
    requires
        0 <= millis <= LAST_MILLIS,
        pattern@ == EVENT_TIME_PATTERN@ || pattern@ == HEADER_TIME_PATTERN@ || pattern@
            == START_TIME_PATTERN@ || pattern@ == DAY_PATTERN@,
    ensures
        pattern@ == EVENT_TIME_PATTERN@ ==> r@ == event_time(millis as int),
        pattern@ == HEADER_TIME_PATTERN@ ==> r@ == header_time(millis as int),
        pattern@ == START_TIME_PATTERN@ ==> r@ == start_time(millis as int),
        pattern@ == DAY_PATTERN@ ==> r@ == date_text(millis as int, false),
{
    DateTime::from_timestamp_millis(millis).unwrap().format(pattern).to_string()
}

/// `chrono::DateTime::from_timestamp`: the instant that lies `seconds` and
/// `nanos` after 1970-01-01 00:00:00 UTC, here in milliseconds. There is one
/// for every second up to the year 9999 and fewer than a billion nanoseconds;
/// nothing is claimed beyond.
#[verifier::external_body]
fn instant_from_timestamp(seconds: i64, nanos: u32) -> (r: Option<Millis>)
    ensures
        0 <= seconds <= LAST_MILLIS / 1000 && nanos < 1_000_000_000 ==> r == Some(
            (seconds * 1000 + nanos / 1_000_000) as i64,
        ),
{
    DateTime::from_timestamp(seconds, nanos).map(|t| t.timestamp_millis())
}

/// `chrono::NaiveDate::from_ymd_opt`, `and_hms_opt` at 00:00:00 and
/// `DateTime::from_naive_utc_and_offset`: midnight UTC at the start of a date
/// of the Gregorian calendar, here in milliseconds.
#[verifier::external_body]
fn midnight_utc(year: i32, month: u32, day: u32) -> (r: Millis)
    requires
        1970 <= year <= 9999,
        1 <= month <= 12,
        1 <= day <= 28,
    ensures
        r == day_number(year as int, month as int, day as int) * 86_400_000,
{
    let date = chrono::NaiveDate::from_ymd_opt(year, month, day).unwrap();
    DateTime::<chrono::Utc>::from_naive_utc_and_offset(
        date.and_hms_opt(0, 0, 0).unwrap(), chrono::Utc).timestamp_millis()
}

/// "YYYY-MM-DD HH:MM:SS.mmm" in UTC.
pub fn format_event_time(time: Millis) -> (r: String)
    requires
        0 <= time <= LAST_MILLIS,
    ensures
        r@ == event_time(time as int),
{
    format_instant(time, EVENT_TIME_PATTERN)
}

/// "YYYY-Mon-DD HH:MM:SS.mmm" in UTC.
pub fn format_header_time(time: Millis) -> (r: String)
    requires
        0 <= time <= LAST_MILLIS,
    ensures
        r@ == header_time(time as int),
{
    format_instant(time, HEADER_TIME_PATTERN)
}

/// "YYYY-MM-DD HH:MM:SS" in UTC.
pub fn format_start_time(time: Millis) -> (r: String)
    requires
        0 <= time <= LAST_MILLIS,
    ensures
        r@ == start_time(time as int),
{
    format_instant(time, START_TIME_PATTERN)
}

/// "YYYY-MM-DD" in UTC.
pub fn format_day(time: Millis) -> (r: String)
    requires
        0 <= time <= LAST_MILLIS,
    ensures
        r@ == date_text(time as int, false),
{
    format_instant(time, DAY_PATTERN)
}

/// The instant `seconds_part` seconds and `milliseconds_part` milliseconds
/// after 1970-01-01 00:00:00 UTC. The milliseconds are a precise offset: a
/// thousand and more of them carry into the seconds.
pub fn unix_from_seconds_and_millis(seconds_part: u32, milliseconds_part: u16) -> (r: Millis)
    ensures
        r == seconds_part * 1000 + milliseconds_part,
{
    let total_ms: i64 = seconds_part as i64 * 1000 + milliseconds_part as i64;
    let total_secs: i64 = total_ms / 1000;
    let remainder_ms: i64 = total_ms % 1000;
    match instant_from_timestamp(total_secs, (remainder_ms * 1_000_000) as u32) {
        Some(t) => t,
        None => 0,
    }
}

/// 2024-10-01 00:00:00 UTC, in milliseconds.
pub open spec fn epoch_millis() -> int {
    1_727_740_800_000
}

/// The instant from which the detector counts its timecode: 2024-10-01
/// 00:00:00 UTC.
pub fn observation_epoch() -> (r: Millis)
    ensures
        r == epoch_millis(),
{
    midnight_utc(2024, 10, 1)
}

/// The instant `seconds` and `milliseconds` after the observation epoch.
pub fn observation_time(seconds: u32, milliseconds: u16) -> (r: Millis)
    ensures
        r == epoch_millis() + seconds * 1000 + milliseconds,
{
    observation_epoch() + seconds as i64 * 1000 + milliseconds as i64
}

} // verus!
