//! Durations as counts of nanoseconds.
use std::time::Duration;
use vstd::prelude::*;

verus! {

/// The total number of nanoseconds of a duration (`Duration::as_nanos`).
pub uninterp spec fn duration_nanos(d: Duration) -> nat;

/// The largest duration, in nanoseconds (`Duration::MAX`).
pub open spec fn max_duration_nanos() -> nat {
    18446744073709551615nat * 1_000_000_000nat + 999_999_999nat
}

/// Reads the total number of nanoseconds of a duration.
///
/// Trusted: `Duration::as_nanos` returns the whole duration in nanoseconds, which never
/// exceeds `Duration::MAX`.
#[verifier::external_body]
pub(crate) fn as_nanos(d: &Duration) -> (n: u128)
    ensures
        n == duration_nanos(*d),
        n <= max_duration_nanos(),
{
    d.as_nanos()
}

/// Builds a duration from whole seconds and extra nanoseconds.
///
/// Trusted: `Duration::new(secs, nanos)` with `nanos` below one second is the duration of
/// `secs` seconds and `nanos` nanoseconds.
#[verifier::external_body]
pub(crate) fn duration_new(secs: u64, nanos: u32) -> (d: Duration)
    requires
        nanos < 1_000_000_000,
    ensures
        duration_nanos(d) == secs * 1_000_000_000 + nanos,
{
    Duration::new(secs, nanos)
}

/// Builds a duration from a count of nanoseconds no larger than `Duration::MAX`.
pub fn duration_from_nanos(n: u128) -> (d: Duration)
    requires
        n <= max_duration_nanos(),
    ensures
        duration_nanos(d) == n,
{
    let secs: u128 = n / 1_000_000_000;
    let nanos: u128 = n % 1_000_000_000;
    assert(secs <= 18446744073709551615) by (nonlinear_arith)
        requires
            n <= max_duration_nanos(),
            secs == n / 1_000_000_000,
    ;
    duration_new(secs as u64, nanos as u32)
}

/// A duration of whole milliseconds (`Duration::from_millis`).
pub fn duration_from_millis(ms: u64) -> (d: Duration)
    ensures
        duration_nanos(d) == ms * 1_000_000,
{
    let n: u128 = (ms as u128) * 1_000_000;
    duration_from_nanos(n)
}

/// A duration of whole seconds (`Duration::from_secs`).
pub fn duration_from_secs(secs: u64) -> (d: Duration)
    ensures
        duration_nanos(d) == secs * 1_000_000_000,
{
    duration_new(secs, 0)
}

/// The shorter of two durations (`Ord::min`).
pub fn duration_min(a: Duration, b: Duration) -> (d: Duration)
    ensures
        duration_nanos(d) == if duration_nanos(a) <= duration_nanos(b) {
            duration_nanos(a)
        } else {
            duration_nanos(b)
        },
{
    if as_nanos(&a) <= as_nanos(&b) {
        a
    } else {
        b
    }
}

} // verus!
