//! Instants are milliseconds since the Unix epoch, in UTC.

use vstd::prelude::*;

verus! {

/// Largest distance from the epoch, in milliseconds, that the library accepts for
/// an instant (about the year 255,000), well inside what the calendar code handles.
pub const MAX_INSTANT_MILLIS: i64 = 8_000_000_000_000_000;

/// An instant that the occurrence calculator can work with.
pub open spec fn valid_instant(t: int) -> bool {
    -MAX_INSTANT_MILLIS <= t <= MAX_INSTANT_MILLIS
}

/// An optional instant, as a mathematical integer.
pub open spec fn opt_int(r: Option<i64>) -> Option<int> {
    match r {
        Some(v) => Some(v as int),
        None => None,
    }
}

/// What a textual timestamp (ISO 8601 / RFC 3339, any offset) denotes, in
/// milliseconds since the epoch, or `None` where the text is not such a timestamp.
pub uninterp spec fn parsed_instant(s: Seq<char>) -> Option<int>;

/// Relies on `<chrono::DateTime<Utc> as FromStr>::from_str` to read the
/// timestamp, and on `DateTime::timestamp_millis` to express it as milliseconds.
#[verifier::external_body]
pub(crate) fn parse_instant(s: &str) -> (r: Option<i64>)
    ensures
        match r {
            Some(v) => parsed_instant(s@) == Some(v as int),
            None => parsed_instant(s@) is None,
        },
{
    match s.parse::<chrono::DateTime<chrono::Utc>>() {
        Ok(dt) => Some(dt.timestamp_millis()),
        Err(_) => None,
    }
}

} // verus!
