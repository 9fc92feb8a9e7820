//! Calls into outside crates for fresh identifiers and the current time.
//! Both results depend on something other than the arguments (the random
//! source, the clock), so nothing is promised of them; every caller is
//! verified for every value they could return.

use vstd::prelude::*;

verus! {

/// Relies on `uuid::Uuid::new_v4`: a version-4 (random) UUID, handed back
/// as its 128-bit value. The result depends on the random source, so
/// nothing is promised of it.
#[verifier::external_body]
pub(crate) fn fresh_id() -> u128 {
    uuid::Uuid::new_v4().as_u128()
}

/// Relies on `chrono::Utc::now` and `DateTime::timestamp_millis`: the
/// current UTC time as non-leap milliseconds since the Unix epoch. The
/// result depends on the clock, so nothing is promised of it.
#[verifier::external_body]
pub(crate) fn now_timestamp_millis() -> i64 {
    chrono::Utc::now().timestamp_millis()
}

} // verus!
