//! UTC instants and their RFC 3339 text, as `chrono` reads and writes them.

use vstd::prelude::*;
use chrono::{DateTime, SecondsFormat, TimeDelta, Utc};

verus! {

/// A UTC instant: whole seconds since the Unix epoch and the nanoseconds past
/// that second (`DateTime::<Utc>::timestamp` and `timestamp_subsec_nanos`;
/// the nanoseconds exceed 999,999,999 only inside a leap second).
#[derive(Debug, Clone, Copy, PartialEq, Eq, Structural)]
pub struct Timestamp {
    pub seconds: i64,
    pub nanos: u32,
}

/// The instant order `chrono` uses for `DateTime<Utc>`.
pub open spec fn instant_lt(a: Timestamp, b: Timestamp) -> bool {
    a.seconds < b.seconds || (a.seconds == b.seconds && a.nanos < b.nanos)
}

/// Whether `a` is strictly earlier than `b`.
pub fn earlier(a: Timestamp, b: Timestamp) -> (r: bool)
    ensures
        r == instant_lt(a, b),
{
    a.seconds < b.seconds || (a.seconds == b.seconds && a.nanos < b.nanos)
}

/// What `DateTime::parse_from_rfc3339` reads from a text, as a UTC instant.
pub uninterp spec fn rfc3339_instant(text: Seq<char>) -> Option<Timestamp>;

/// What `to_rfc3339_opts(SecondsFormat::AutoSi, true)` writes for the instant, if
/// `DateTime::from_timestamp` can represent it.
pub uninterp spec fn rfc3339_text(seconds: i64, nanos: u32) -> Option<Seq<char>>;

/// What `checked_add_signed` gives for an instant moved by whole seconds.
pub uninterp spec fn shifted_instant(seconds: i64, nanos: u32, delta: i64) -> Option<Timestamp>;

/// Reads an RFC 3339 timestamp with any offset and converts it to UTC
/// (`DateTime::parse_from_rfc3339` then `with_timezone(&Utc)`). The contract
/// names the outcome; which texts `chrono` accepts is not restated here.
#[verifier::external_body]
pub(crate) fn parse_rfc3339(text: &str) -> (r: Option<Timestamp>)
    ensures
        r == rfc3339_instant(text@),
{
    DateTime::parse_from_rfc3339(text).ok().map(|parsed| {
        let utc = parsed.with_timezone(&Utc);
        Timestamp { seconds: utc.timestamp(), nanos: utc.timestamp_subsec_nanos() }
    })
}

/// Writes an instant as RFC 3339 with `Z` and as many fractional digits as
/// needed (`to_rfc3339_opts(SecondsFormat::AutoSi, true)`); `None` where
/// `DateTime::from_timestamp` cannot represent it.
#[verifier::external_body]
pub(crate) fn render_rfc3339(ts: Timestamp) -> (r: Option<String>)
    ensures
        match r {
            Some(s) => rfc3339_text(ts.seconds, ts.nanos) == Some(s@),
            None => rfc3339_text(ts.seconds, ts.nanos) is None,
        },
{
    DateTime::from_timestamp(ts.seconds, ts.nanos).map(|dt| dt.to_rfc3339_opts(SecondsFormat::AutoSi, true))
}

/// `TimeDelta::try_seconds(seconds).is_some()`: whole seconds whose
/// millisecond count fits in an `i64`.
#[verifier::external_body]
pub(crate) fn delta_seconds_representable(seconds: i64) -> (r: bool)
    ensures
        r == (-(i64::MAX / 1000) <= seconds <= i64::MAX / 1000),
{
    TimeDelta::try_seconds(seconds).is_some()
}

/// Moves an instant by whole seconds (`DateTime::checked_add_signed` with
/// `TimeDelta::seconds`); `None` outside `chrono`'s range. Outside a leap second
/// the nanoseconds stay and the seconds move by `delta`; inside one the contract
/// says no more than the name.
#[verifier::external_body]
pub(crate) fn shift_seconds(ts: Timestamp, delta: i64) -> (r: Option<Timestamp>)
    requires
        -(i64::MAX / 1000) <= delta <= i64::MAX / 1000,
    ensures
        r == shifted_instant(ts.seconds, ts.nanos, delta),
        ts.nanos < 1_000_000_000 && r is Some ==> r == Some(
            Timestamp { seconds: (ts.seconds + delta) as i64, nanos: ts.nanos },
        ),
{
    let start = DateTime::from_timestamp(ts.seconds, ts.nanos)?;
    let moved = start.checked_add_signed(TimeDelta::seconds(delta))?;
    Some(Timestamp { seconds: moved.timestamp(), nanos: moved.timestamp_subsec_nanos() })
}

/// Whether `DateTime::from_timestamp(seconds, 0)` can represent a whole second.
pub uninterp spec fn epoch_instant(seconds: i64) -> Option<Timestamp>;

/// `DateTime::from_timestamp(seconds, 0)`: the instant of a whole epoch second,
/// `None` outside `chrono`'s range.
#[verifier::external_body]
pub(crate) fn from_epoch_seconds(seconds: i64) -> (r: Option<Timestamp>)
    ensures
        r == epoch_instant(seconds),
        r matches Some(t) ==> t == (Timestamp { seconds, nanos: 0 }),
{
    DateTime::from_timestamp(seconds, 0).map(|dt| Timestamp { seconds: dt.timestamp(), nanos: dt.timestamp_subsec_nanos() })
}


/// What `str::parse::<DateTime<Utc>>` reads from a text, as an instant.
pub uninterp spec fn utc_datetime_from_str(text: Seq<char>) -> Option<Timestamp>;

/// Reads an instant as `str::parse::<DateTime<Utc>>` does (chrono's relaxed
/// RFC 3339: `T` or a space between date and time, any offset, converted to
/// UTC). The contract names the outcome; which texts `chrono` accepts is not
/// restated here.
#[verifier::external_body]
pub(crate) fn parse_utc_datetime(text: &str) -> (r: Option<Timestamp>)
    ensures
        r == utc_datetime_from_str(text@),
{
    text.parse::<DateTime<Utc>>().ok().map(|parsed| Timestamp { seconds: parsed.timestamp(), nanos: parsed.timestamp_subsec_nanos() })
}

} // verus!
