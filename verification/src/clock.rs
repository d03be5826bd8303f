//! Access to the wall clock. Every timestamp in the library is a plain
//! number read through these functions.
use vstd::prelude::*;

verus! {

/// Seconds since the UNIX epoch, from `std::time::SystemTime::now`.
/// Nothing is promised of the value: it depends on the machine's clock.
#[verifier::external_body]
pub fn now_secs() -> (r: u64) {
    std::time::SystemTime::now()
        .duration_since(std::time::UNIX_EPOCH)
        .map(|d| d.as_secs())
        .unwrap_or(0)
}

/// Milliseconds since the UNIX epoch, from `std::time::SystemTime::now`.
/// Nothing is promised of the value: it depends on the machine's clock.
#[verifier::external_body]
pub fn now_millis() -> (r: u64) {
    std::time::SystemTime::now()
        .duration_since(std::time::UNIX_EPOCH)
        .map(|d| d.as_millis() as u64)
        .unwrap_or(0)
}

} // verus!
