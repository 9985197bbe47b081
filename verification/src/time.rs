use vstd::prelude::*;

use chrono::TimeZone;

verus! {

/// Bounds, in milliseconds since the Unix epoch, within which the calendar
/// library is known to represent and format a timestamp. Its own range is
/// wider (roughly 262,000 years either side of the common era); these round
/// figures lie strictly inside it.
pub const TS_FORMAT_MIN_MS: i64 = -8_000_000_000_000_000;

pub const TS_FORMAT_MAX_MS: i64 = 8_000_000_000_000_000;

/// What parsing a timestamp string yields: its millisecond count since the
/// Unix epoch, or nothing when the string is not an RFC 3339-style
/// timestamp with an explicit offset.
pub uninterp spec fn ts_of(s: Seq<char>) -> Option<i64>;

/// The fixed-format rendering `YYYY-MM-DDTHH:MM:SS.sssZ` of a millisecond
/// count, as bytes.
pub uninterp spec fn rfc3339_millis_of(ms: i64) -> Seq<u8>;

/// Relies on chrono: parsing a `DateTime<Utc>` out of a string accepts an
/// RFC 3339 timestamp with an explicit offset (a space may stand for the
/// `T`) and rejects anything else, and the value depends on the string
/// alone; `timestamp_millis` renders it as a millisecond count.
#[verifier::external_body]
pub(crate) fn parse_timestamp(s: &str) -> (r: Option<i64>)
    ensures
        r == ts_of(s@),
{
    match s.parse::<chrono::DateTime<chrono::Utc>>() {
        Ok(dt) => Some(dt.timestamp_millis()),
        Err(_) => None,
    }
}

/// Relies on chrono: `Utc.timestamp_millis_opt` is `Single` for every
/// millisecond count its calendar can represent, an interval that contains
/// the two bounds above, and formatting with a fixed format string depends
/// on the timestamp alone.
#[verifier::external_body]
pub(crate) fn format_timestamp(ms: i64) -> (r: Option<Vec<u8>>)
    ensures
        r matches Some(v) ==> v@ == rfc3339_millis_of(ms),
        TS_FORMAT_MIN_MS <= ms <= TS_FORMAT_MAX_MS ==> r is Some,
{
    match chrono::Utc.timestamp_millis_opt(ms) {
        chrono::MappedLocalTime::Single(dt) => Some(
            dt.format("%Y-%m-%dT%H:%M:%S%.3fZ").to_string().into_bytes(),
        ),
        _ => None,
    }
}

} // verus!
