//! The library's view of its surroundings: fresh identifiers and the clock.
use vstd::prelude::*;

verus! {

/// The identifier that stands for "no identifier" (the nil UUID).
pub const NIL_ID: u128 = 0;

/// A fresh time-ordered identifier.
///
/// Calls `uuid::Uuid::now_v7()` and returns its 128-bit value. The value depends on the
/// clock and on random bits, so nothing is stated of it.
#[verifier::external_body]
pub(crate) fn fresh_id() -> (id: u128) {
    uuid::Uuid::now_v7().as_u128()
}

/// The current wall-clock time in milliseconds since the Unix epoch.
///
/// Calls `chrono::Utc::now().timestamp_millis()`. The value depends on the clock; what is
/// stated is only the range of chrono's date-times (years -262143 to 262142), whose
/// millisecond timestamps lie within 2^53 of the epoch.
#[verifier::external_body]
pub(crate) fn now_millis() -> (t: i64)
    ensures
        -0x20_0000_0000_0000 < t < 0x20_0000_0000_0000,
{
    chrono::Utc::now().timestamp_millis()
}

} // verus!
