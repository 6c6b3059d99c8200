//! Reading the wall clock.
use vstd::prelude::*;

verus! {

/// An instant: microseconds since the Unix epoch (UTC), and the same instant
/// written as a UTC date and time.
pub struct Timestamp {
    pub micros: i64,
    pub text: String,
}

/// Relies on chrono's `From<SystemTime> for DateTime<Utc>`, which accepts
/// clock readings before the Unix epoch too: the system clock's reading is
/// turned into its microsecond count and into the text form of its naive
/// UTC value. The conversion fails only for readings some 262,000 years away
/// from the epoch, beyond what a system clock kept in signed 64-bit
/// nanoseconds can hold. Nothing is known of the reading.
#[verifier::external_body]
pub(crate) fn now() -> (r: Timestamp) {
    let t = chrono::DateTime::<chrono::Utc>::from(std::time::SystemTime::now());
    Timestamp { micros: t.timestamp_micros(), text: t.naive_utc().to_string() }
}

} // verus!
