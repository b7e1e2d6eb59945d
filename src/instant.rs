//! Instants as whole Unix seconds, with the calendar work done by chrono.
use vstd::prelude::*;

verus! {

/// Largest distance from the epoch, in seconds, that an instant of this
/// library may have: within the range of calendar dates that chrono handles.
pub const MAX_INSTANT: i64 = 8_000_000_000_000;

/// An instant that chrono can represent and format.
pub open spec fn in_instant_range(secs: int) -> bool {
    -MAX_INSTANT <= secs <= MAX_INSTANT
}

/// Whole Unix seconds of the instant that an RFC 3339 text denotes, where
/// chrono accepts the text.
pub uninterp spec fn rfc3339_seconds(s: Seq<char>) -> Option<int>;

/// RFC 3339 text of an instant given in Unix seconds, in UTC.
pub uninterp spec fn rfc3339_text(secs: int) -> Seq<char>;

/// Relies on chrono's `DateTime::parse_from_rfc3339` and `timestamp`: the
/// instant the text denotes, in whole seconds; the result depends on the text
/// alone, and chrono's dates stay within `in_instant_range`.
#[verifier::external_body]
pub fn parse_rfc3339(s: &str) -> (r: Option<i64>)
    ensures
        match r {
            Some(v) => rfc3339_seconds(s@) == Some(v as int) && in_instant_range(v as int),
            None => rfc3339_seconds(s@) is None,
        },
{
    match chrono::DateTime::parse_from_rfc3339(s) {
        Ok(dt) => Some(dt.timestamp()),
        Err(_) => None,
    }
}

/// Relies on chrono's `DateTime::from_timestamp` and `to_rfc3339`: every
/// instant in `in_instant_range` is a date chrono represents.
#[verifier::external_body]
pub fn format_rfc3339(secs: i64) -> (r: String)
    requires
        in_instant_range(secs as int),
    ensures
        r@ == rfc3339_text(secs as int),
{
    chrono::DateTime::from_timestamp(secs, 0).unwrap().to_rfc3339()
}

/// Relies on chrono's `Utc::now`: the current time in whole Unix seconds.
/// Nothing is known of its value.
#[verifier::external_body]
pub fn now_seconds() -> (r: i64) {
    chrono::Utc::now().timestamp()
}

} // verus!
