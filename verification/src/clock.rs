//! Wall-clock readings and timestamp formatting through chrono.

use vstd::prelude::*;

verus! {

/// The largest millisecond timestamp handed to the formatter; chrono's
/// `DateTime` covers dates far beyond it.
pub const MAX_TIMESTAMP_MS: i64 = 8_000_000_000_000_000;

/// The RFC 3339 rendering of a millisecond timestamp: named result of
/// chrono's formatter, a function of the timestamp alone.
pub uninterp spec fn rfc3339_of(ms: i64) -> Seq<char>;

/// Relies on chrono's Utc::now and timestamp_millis: reads the wall clock.
/// Nothing is promised of the result; the clock is outside the program.
/// Aborts if the system clock reads before the Unix epoch (chrono's own
/// check), independently of any input.
#[verifier::external_body]
fn now_millis_raw() -> i64 {
    chrono::Utc::now().timestamp_millis()
}

/// The wall-clock time in milliseconds since the epoch, clamped into the
/// range the rest of the library accepts.
pub fn now_millis() -> (r: i64)
    ensures
        0 <= r <= MAX_TIMESTAMP_MS,
{
    let ms = now_millis_raw();
    if ms < 0 {
        0
    } else if ms > MAX_TIMESTAMP_MS {
        MAX_TIMESTAMP_MS
    } else {
        ms
    }
}

/// Relies on chrono's DateTime::from_timestamp_millis and to_rfc3339: the
/// RFC 3339 rendering of a millisecond timestamp, a function of the
/// timestamp alone. The range bound keeps the conversion in chrono's
/// supported dates, where it cannot fail.
#[verifier::external_body]
pub fn format_rfc3339_millis(ms: i64) -> (r: String)
    requires
        0 <= ms <= MAX_TIMESTAMP_MS,
    ensures
        r@ == rfc3339_of(ms),
{
    chrono::DateTime::<chrono::Utc>::from_timestamp_millis(ms).unwrap().to_rfc3339()
}

} // verus!
