//! Instants as text, through the `chrono` crate.
//!
//! The library keeps an instant as an `i64` count of nanoseconds since the
//! Unix epoch; chrono turns it into RFC 3339 text and back, and into local
//! wall-clock text.

use chrono::{DateTime, Local, Utc};
use vstd::prelude::*;

verus! {

/// The RFC 3339 text that chrono's `DateTime::<Utc>::to_rfc3339` writes for
/// the instant `nanos` (nanoseconds since the Unix epoch), such as
/// `2025-01-15T12:00:00+00:00`.
pub uninterp spec fn rfc3339_text(nanos: int) -> Seq<char>;

/// What chrono's `DateTime::parse_from_rfc3339` makes of `text`: the instant
/// it denotes, in nanoseconds since the Unix epoch, or the text of chrono's
/// parse error.
pub uninterp spec fn rfc3339_parse(text: Seq<char>) -> Result<int, Seq<char>>;

/// What chrono's relaxed parser (`str::parse::<DateTime<Utc>>`) makes of
/// `text`: the instant in nanoseconds since the Unix epoch, or nothing.
pub uninterp spec fn utc_parse(text: Seq<char>) -> Option<int>;

/// The strftime patterns this library formats local times with.
pub open spec fn known_time_pattern(p: Seq<char>) -> bool {
    ||| p == "%H:%M:%S"@
    ||| p == "%H:%M"@
    ||| p == "%b %d"@
    ||| p == "%a %d %H:%M:%S"@
    ||| p == "%Y-%m-%d"@
    ||| p == "%Y-%m-%d %H:%M:%S"@
}

/// RFC 3339 text of an instant, through `DateTime::from_timestamp_nanos` and
/// `DateTime::to_rfc3339`.
///
/// Trusted: the text is `rfc3339_text(nanos)`, and chrono's RFC 3339 parser
/// reads it back as the same instant (the writer keeps every nanosecond).
#[verifier::external_body]
pub(crate) fn rfc3339_of(nanos: i64) -> (r: String)
    ensures
        r@ == rfc3339_text(nanos as int),
        rfc3339_parse(r@) is Ok && rfc3339_parse(r@)->Ok_0 == nanos as int,
{
    DateTime::<Utc>::from_timestamp_nanos(nanos).to_rfc3339()
}

/// Parses RFC 3339 text with `DateTime::parse_from_rfc3339` and reads the
/// instant back with `timestamp_nanos_opt`.
///
/// Trusted: `Ok(Some(n))` when the text denotes instant `n` and `n` fits in
/// an `i64`; `Ok(None)` when it denotes an instant outside that range;
/// otherwise chrono's error message.
#[verifier::external_body]
pub(crate) fn parse_rfc3339(text: &str) -> (r: Result<Option<i64>, String>)
    ensures
        match rfc3339_parse(text@) {
            Ok(m) => r is Ok && r->Ok_0 == (if i64::MIN <= m <= i64::MAX {
                Some(m as i64)
            } else {
                None
            }),
            Err(msg) => r matches Err(e) && e@ == msg,
        },
{
    match DateTime::parse_from_rfc3339(text) {
        Ok(d) => Ok(d.timestamp_nanos_opt()),
        Err(e) => Err(e.to_string()),
    }
}

/// The text chrono's `format(pattern)` writes for the wall-clock date and
/// time `secs` whole seconds after 1970-01-01 00:00:00.
pub uninterp spec fn clock_text(secs: int, pattern: Seq<char>) -> Seq<char>;

/// A character of the library's wall-clock texts: an ASCII letter or digit,
/// `:`, `-` or a space.
pub open spec fn is_time_char(c: char) -> bool {
    ||| ('0' <= c && c <= '9')
    ||| ('a' <= c && c <= 'z')
    ||| ('A' <= c && c <= 'Z')
    ||| c == ':'
    ||| c == '-'
    ||| c == ' '
}

/// Every character of `text` is a wall-clock character (so it holds no
/// escape sequence).
pub open spec fn plain_time_text(text: Seq<char>) -> bool {
    forall|i: int| 0 <= i < text.len() ==> is_time_char(#[trigger] text[i])
}

/// `text` is the wall-clock text, under `pattern`, of the instant `nanos`
/// (nanoseconds since the epoch) in a time zone whose offset from UTC at that
/// instant is less than a day either way; it is made of wall-clock
/// characters only.
pub open spec fn is_local_text(text: Seq<char>, nanos: int, pattern: Seq<char>) -> bool {
    &&& plain_time_text(text)
    &&& exists|offset: int|
        -86400 < offset < 86400 && text == #[trigger] clock_text(
            nanos / 1_000_000_000 + offset,
            pattern,
        )
}

/// Local wall-clock text of an instant and the offset it was shown in,
/// through `with_timezone(&Local)`, `format(pattern)` and
/// `offset().local_minus_utc()`.
///
/// Trusted: chrono formats the local date and time, which is the UTC one
/// moved by the offset, in seconds, that the machine's time zone has at
/// that instant; a chrono offset is always less than a day either way
/// (`FixedOffset::east_opt`), and the patterns used name no offset, so the
/// text is `clock_text` of the shifted whole seconds. Which offset the
/// machine has is left unsaid. The patterns' fields are zero-padded numbers
/// and English month and weekday abbreviations, and every instant an `i64`
/// counts lies in a four-digit year, so the text holds only letters,
/// digits, `:`, `-` and spaces.
#[verifier::external_body]
fn local_clock(nanos: i64, pattern: &str) -> (r: (String, i32))
    requires
        known_time_pattern(pattern@),
    ensures
        -86400 < r.1 < 86400,
        plain_time_text(r.0@),
        r.0@ == clock_text(nanos as int / 1_000_000_000 + r.1, pattern@),
{
    let local = DateTime::<Utc>::from_timestamp_nanos(nanos).with_timezone(&Local);
    (local.format(pattern).to_string(), local.offset().local_minus_utc())
}

/// Local wall-clock text of an instant under one of the library's
/// patterns (see `is_local_text`).
pub(crate) fn local_time_text(nanos: i64, pattern: &str) -> (r: String)
    requires
        known_time_pattern(pattern@),
    ensures
        is_local_text(r@, nanos as int, pattern@),
{
    let (text, offset) = local_clock(nanos, pattern);
    assert(-86400 < (offset as int) && (offset as int) < 86400 && text@ == clock_text(
        nanos as int / 1_000_000_000 + (offset as int),
        pattern@,
    ));
    text
}

/// Parses a date and time with chrono's relaxed RFC 3339 parser
/// (`str::parse::<DateTime<Utc>>`) and reads the instant back with
/// `timestamp_nanos_opt`.
///
/// Trusted: `Some(n)` when the text denotes instant `n` and `n` fits in an
/// `i64`; `None` otherwise.
#[verifier::external_body]
pub(crate) fn parse_utc(text: &str) -> (r: Option<i64>)
    ensures
        r == (match utc_parse(text@) {
            Some(m) => if i64::MIN <= m <= i64::MAX {
                Some(m as i64)
            } else {
                None
            },
            None => None,
        }),
{
    match text.parse::<DateTime<Utc>>() {
        Ok(d) => d.timestamp_nanos_opt(),
        Err(_) => None,
    }
}

/// The current instant, from `Utc::now`, in nanoseconds since the Unix
/// epoch (`timestamp_nanos_opt`: `None` past the year 2262).
///
/// Nothing is stated of the result: it is the time.
#[verifier::external_body]
pub(crate) fn now_nanos() -> (r: Option<i64>) {
    Utc::now().timestamp_nanos_opt()
}

/// The current instant in nanoseconds since the Unix epoch, the largest
/// instant when the clock is past what an `i64` counts.
pub fn current_instant() -> (r: i64) {
    match now_nanos() {
        Some(n) => n,
        None => i64::MAX,
    }
}

} // verus!
