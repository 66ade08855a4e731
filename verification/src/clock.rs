//! The monotonic clock by which the worker measures the time since its last flush.

use vstd::prelude::*;

verus! {

/// `std::time::Instant`: a reading of the monotonic clock. Opaque.
#[verifier::external_type_specification]
#[verifier::external_body]
pub struct ExInstant(std::time::Instant);

/// Nanoseconds in a millisecond.
pub const NANOS_PER_MILLI: u128 = 1_000_000;

/// `Instant::now`: the current reading of the clock. Nothing is claimed of it.
#[verifier::external_body]
pub(crate) fn clock_now() -> (now: std::time::Instant) {
    std::time::Instant::now()
}

/// `Instant::elapsed`: the time that has passed since `start`, in nanoseconds.
/// Nothing is claimed of it.
#[verifier::external_body]
pub(crate) fn nanos_since(start: &std::time::Instant) -> (nanos: u128) {
    start.elapsed().as_nanos()
}

/// The whole milliseconds in `nanos`, or `u64::MAX` where they do not fit.
pub open spec fn whole_millis(nanos: nat) -> nat {
    if nanos / 1_000_000 > u64::MAX {
        u64::MAX as nat
    } else {
        nanos / 1_000_000
    }
}

/// Whole milliseconds of a time in nanoseconds, saturating at `u64::MAX`.
pub fn millis_of_nanos(nanos: u128) -> (millis: u64)
    ensures
        millis == whole_millis(nanos as nat),
{
    let millis: u128 = nanos / NANOS_PER_MILLI;
    if millis > u64::MAX as u128 {
        u64::MAX
    } else {
        millis as u64
    }
}

/// Comparing whole milliseconds with an interval in milliseconds is comparing the
/// exact time with the interval: for every interval that fits in a `u64`,
/// `whole_millis(nanos)` has reached `interval_ms` exactly when `nanos` has reached
/// `interval_ms` milliseconds.
pub proof fn lemma_whole_millis_reach(nanos: nat, interval_ms: nat)
    requires
        interval_ms <= u64::MAX,
    ensures
        whole_millis(nanos) >= interval_ms <==> nanos >= interval_ms * 1_000_000,
{
    assert(nanos / 1_000_000 >= interval_ms <==> nanos >= interval_ms * 1_000_000)
        by (nonlinear_arith);
}

} // verus!
