//! What only the machine knows: the time and a random token.

use vstd::prelude::*;

verus! {

/// `chrono::Utc::now().timestamp_millis()`: the milliseconds since the Unix
/// epoch on the system clock. Nothing is claimed of the value. The call
/// panics where the system clock stands before the epoch.
#[verifier::external_body]
pub(crate) fn now_millis() -> (now: i64) {
    chrono::Utc::now().timestamp_millis()
}

/// `uuid::Uuid::new_v4()` as text: a random identifier from the system's
/// generator. Nothing is claimed of the value. The call panics where the
/// system's generator fails.
#[verifier::external_body]
pub(crate) fn random_token() -> (token: String) {
    uuid::Uuid::new_v4().to_string()
}

} // verus!
