//! The one place where the library reads the wall clock.

use vstd::prelude::*;

verus! {

/// Relies on `chrono::Local::now` and `chrono::DateTime::timestamp_millis`:
/// the current wall-clock time as milliseconds since the Unix epoch. The
/// value depends on the machine's clock, so nothing is promised of it.
#[verifier::external_body]
pub(crate) fn now_timestamp_millis() -> i64 {
    chrono::Local::now().timestamp_millis()
}

/// A non-negative wall-clock sample: milliseconds since the Unix epoch, or 0
/// if the clock reports a time before the epoch. Callers must hold for every
/// value this may return.
pub(crate) fn now_unix_millis() -> u64 {
    let ms = now_timestamp_millis();
    if ms >= 0 {
        ms as u64
    } else {
        0
    }
}

} // verus!
