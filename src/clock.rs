//! The outside sources this library draws on: the calendar, the current
//! moment, clock-time parsing and random numbers.

use chrono::Timelike;
use rand::Rng;
use vstd::prelude::*;

verus! {

/// The hour and minute that `chrono` reads from a text in the form `HH:MM`.
pub uninterp spec fn clock_reading(s: Seq<char>) -> Option<(u32, u32)>;

/// Relies on `chrono::NaiveTime::parse_from_str` with the format `"%H:%M"`,
/// and on `NaiveTime::hour` and `NaiveTime::minute`, which return values in
/// `0..24` and `0..60`.
#[verifier::external_body]
pub(crate) fn parse_clock(s: &str) -> (r: Option<(u32, u32)>)
    ensures
        r == clock_reading(s@),
        r matches Some((h, m)) ==> h < 24 && m < 60,
{
    chrono::NaiveTime::parse_from_str(s, "%H:%M").ok().map(|t| (t.hour(), t.minute()))
}

/// Relies on `chrono::Local::now`: today's local calendar date at 00:00,
/// read as a UTC timestamp in seconds (`NaiveDateTime::and_utc().timestamp()`).
/// The value depends on the moment of the call; being a midnight, it is a
/// whole number of days.
#[verifier::external_body]
pub(crate) fn local_midnight_timestamp() -> (r: i64)
    ensures
        r % 86400 == 0,
{
    chrono::Local::now().date_naive().and_time(chrono::NaiveTime::MIN).and_utc().timestamp()
}

/// Relies on `chrono::Utc::now` and `DateTime::timestamp`: the current moment
/// in seconds since the Unix epoch. The value depends on the moment of the call.
#[verifier::external_body]
pub(crate) fn now_timestamp() -> (r: i64) {
    chrono::Utc::now().timestamp()
}

/// Relies on `rand::Rng::gen_range` over `rand::thread_rng()`: a value drawn
/// from the closed range `low..=high`, which panics only when that range is empty.
#[verifier::external_body]
pub(crate) fn random_in_range(low: i64, high: i64) -> (r: i64)
    requires
        low <= high,
    ensures
        low <= r <= high,
{
    rand::thread_rng().gen_range(low..=high)
}

/// Relies on `String::from_utf8`: it succeeds exactly on valid UTF-8, and the
/// string it returns holds those bytes.
#[verifier::external_body]
pub(crate) fn text_from_bytes(b: &Vec<u8>) -> (r: Option<String>)
    ensures
        r is Some <==> vstd::utf8::valid_utf8(b@),
        r matches Some(s) ==> vstd::utf8::encode_utf8(s@) == b@,
{
    String::from_utf8(b.clone()).ok()
}

} // verus!
