//! The current time, as nanoseconds since the Unix epoch, and the
//! monotonic clock that measures how long ago something happened.

use vstd::prelude::*;

verus! {

/// Calls `chrono::Utc::now()` and reads the result's Unix timestamp
/// (`DateTime::timestamp`, whole seconds) and the nanoseconds past that
/// second (`DateTime::timestamp_subsec_nanos`). Nothing is claimed of the
/// seconds, which depend on the clock; chrono documents the nanoseconds as
/// below 2,000,000,000 (a leap second may take them past 999,999,999).
#[verifier::external_body]
fn utc_now_parts() -> (r: (i64, u32))
    ensures
        r.1 < 2_000_000_000,
{
    let t = chrono::Utc::now();
    (t.timestamp(), t.timestamp_subsec_nanos())
}

/// Nanoseconds in a second.
pub const NANOS_PER_SEC: i128 = 1_000_000_000;

/// A point in time given as whole seconds and the nanoseconds past them.
pub open spec fn nanos_of(secs: i64, subsec: u32) -> int {
    secs as int * NANOS_PER_SEC as int + subsec as int
}

/// The instant `secs` seconds and `subsec` nanoseconds after the Unix epoch, in nanoseconds.
pub fn timestamp_nanos(secs: i64, subsec: u32) -> (n: i128)
    requires
        subsec < 2_000_000_000,
    ensures
        n == nanos_of(secs, subsec),
{
    assert(secs as int * NANOS_PER_SEC as int + subsec as int <= i128::MAX) by (nonlinear_arith)
        requires
            subsec < 2_000_000_000,
            secs <= i64::MAX,
    ;
    assert(secs as int * NANOS_PER_SEC as int + subsec as int >= i128::MIN) by (nonlinear_arith)
        requires
            secs >= i64::MIN,
    ;
    secs as i128 * NANOS_PER_SEC + subsec as i128
}

/// The current time in nanoseconds since the Unix epoch. The value depends
/// on the clock; it lies within what whole seconds in an `i64` allow.
pub fn now_nanos() -> (n: i128)
    ensures
        i64::MIN as int * NANOS_PER_SEC <= n < (i64::MAX as int + 2) * NANOS_PER_SEC,
{
    let (secs, subsec) = utc_now_parts();
    let n = timestamp_nanos(secs, subsec);
    assert(secs as int * NANOS_PER_SEC as int >= i64::MIN as int * NANOS_PER_SEC as int) by (nonlinear_arith)
        requires
            secs >= i64::MIN,
    ;
    assert(secs as int * NANOS_PER_SEC as int <= i64::MAX as int * NANOS_PER_SEC as int) by (nonlinear_arith)
        requires
            secs <= i64::MAX,
    ;
    n
}

/// A reading of the monotonic clock.
#[verifier::external_type_specification]
#[verifier::external_body]
pub struct ExInstant(std::time::Instant);

/// Calls `std::time::Instant::now`: a reading of the monotonic clock. Nothing
/// is claimed of it; it depends on the clock.
#[verifier::external_body]
pub(crate) fn instant_now() -> std::time::Instant {
    std::time::Instant::now()
}

/// Calls `std::time::Instant::elapsed`: the time passed since `t`. Nothing is
/// claimed of it; it depends on the clock.
#[verifier::external_body]
pub(crate) fn elapsed_since(t: &std::time::Instant) -> std::time::Duration {
    t.elapsed()
}

/// Calls `std::time::Duration::as_millis`: the whole milliseconds of `d`.
/// A duration is opaque here, so nothing is claimed of the number.
#[verifier::external_body]
pub(crate) fn duration_millis(d: &std::time::Duration) -> u128 {
    d.as_millis()
}

} // verus!
