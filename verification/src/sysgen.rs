//! Trusted boundary to the identifier generator and the wall clock.

use vstd::prelude::*;

verus! {

/// Relies on `uuid::Uuid::new_v4` and its hyphenated `Display` form: a
/// randomly generated identifier, rendered as 36 characters. Distinctness
/// across calls is overwhelmingly likely but not promised here; callers
/// check for collisions.
#[verifier::external_body]
pub(crate) fn fresh_id() -> (r: String)
    ensures
        r@.len() == 36,
{
    uuid::Uuid::new_v4().to_string()
}

/// Relies on `chrono::Utc::now` and `timestamp_millis`: the wall-clock time
/// in milliseconds since the Unix epoch. Nothing is promised of the value;
/// the service enforces monotonicity itself.
#[verifier::external_body]
pub(crate) fn wall_clock_millis() -> (r: i64)
{
    chrono::Utc::now().timestamp_millis()
}

} // verus!
