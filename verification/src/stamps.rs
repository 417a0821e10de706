//! Fresh identifiers, wall-clock timestamps and monotonic elapsed time for
//! evaluation results. All three depend on the outside world, so nothing is
//! promised of their values beyond shape.

use vstd::prelude::*;

verus! {

/// Declares `std::time::Instant`, an opaque monotonic clock reading.
#[verifier::external_type_specification]
#[verifier::external_body]
pub struct ExInstant(std::time::Instant);

/// Relies on `std::time::Instant::now`: an opaque reading of the monotonic
/// clock; nothing can be promised of its value.
#[verifier::external_body]
pub(crate) fn instant_now() -> std::time::Instant {
    std::time::Instant::now()
}

/// Relies on `std::time::Instant::elapsed`: the time since `start`, reduced
/// to whole milliseconds; nothing can be promised of its value.
#[verifier::external_body]
pub(crate) fn elapsed_millis(start: &std::time::Instant) -> u64 {
    start.elapsed().as_millis() as u64
}

/// Relies on `uuid::Uuid::new_v4` and its hyphenated rendering: a fresh
/// random identifier, always 36 characters long.
#[verifier::external_body]
pub(crate) fn new_event_id() -> (r: String)
    ensures
        r@.len() == 36,
{
    uuid::Uuid::new_v4().to_string()
}

/// Relies on `chrono::Utc::now`: the current wall-clock time as milliseconds
/// since the Unix epoch; nothing can be promised of its value.
#[verifier::external_body]
pub(crate) fn now_timestamp_millis() -> i64 {
    chrono::Utc::now().timestamp_millis()
}

} // verus!
