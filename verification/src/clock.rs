use vstd::prelude::*;

verus! {

/// Relies on chrono::Utc::now: the current instant in seconds since the
/// Unix epoch. Nothing can be promised of what the clock reads; every
/// function that depends on the instant takes it as an argument and is
/// verified for each of its values.
#[verifier::external_body]
pub fn utc_now_seconds() -> i64 {
    chrono::Utc::now().timestamp()
}

} // verus!
