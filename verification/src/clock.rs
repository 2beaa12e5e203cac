//! Monotonic time, for the status message that fades after a few seconds.
use vstd::prelude::*;

verus! {

/// `std::time::Instant`, carried through the library unopened.
#[verifier::external_type_specification]
#[verifier::external_body]
pub struct ExInstant(std::time::Instant);

/// Calls `Instant::now`; what it returns depends on the clock, so nothing is
/// stated of it.
#[verifier::external_body]
pub(crate) fn now() -> (r: std::time::Instant) {
    std::time::Instant::now()
}

/// Calls `Instant::elapsed`; what it returns depends on the clock, so
/// nothing is stated of it.
#[verifier::external_body]
pub(crate) fn elapsed(at: &std::time::Instant) -> (r: std::time::Duration) {
    at.elapsed()
}

/// Calls `Duration::as_secs`, the number of whole seconds; a `Duration` is
/// opaque here, so nothing is stated of the result.
#[verifier::external_body]
pub(crate) fn whole_secs(d: &std::time::Duration) -> (r: u64) {
    d.as_secs()
}

} // verus!
