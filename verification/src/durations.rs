//! Lengths of time, read as whole nanoseconds.

use vstd::prelude::*;
use std::time::Duration;

verus! {

/// The length of a duration in nanoseconds, as `Duration::as_nanos` gives it.
pub uninterp spec fn duration_nanos(d: Duration) -> u128;

/// The length, in nanoseconds, of the duration that `Duration`'s division by
/// a `u32` gives for a duration of `nanos` nanoseconds.
pub uninterp spec fn duration_quotient(nanos: u128, divisor: u32) -> u128;

/// The largest number of nanoseconds that `Duration::new` accepts with
/// fewer than a second of extra nanoseconds: `u64::MAX` whole seconds and
/// 999 999 999 nanoseconds.
pub open spec fn max_duration_nanos() -> int {
    u64::MAX * 1_000_000_000 + 999_999_999
}

/// `Duration::as_nanos`: the whole nanoseconds the duration holds.
#[verifier::external_body]
pub(crate) fn duration_as_nanos(d: &Duration) -> (n: u128)
    ensures
        n == duration_nanos(*d),
{
    d.as_nanos()
}

/// `Duration::from_secs`: a duration of `secs` whole seconds.
#[verifier::external_body]
pub(crate) fn duration_from_secs(secs: u64) -> (d: Duration)
    ensures
        duration_nanos(d) == secs * 1_000_000_000,
{
    Duration::from_secs(secs)
}

/// `Duration::new` with fewer than a second of extra nanoseconds: a
/// duration of `secs` seconds and `nanos` nanoseconds.
#[verifier::external_body]
pub(crate) fn duration_new(secs: u64, nanos: u32) -> (d: Duration)
    requires
        nanos < 1_000_000_000,
    ensures
        duration_nanos(d) == secs * 1_000_000_000 + nanos,
{
    Duration::new(secs, nanos)
}

/// `Duration / u32`: the duration divided by a non-zero count. Its length
/// is named, not stated: the documentation gives no rounding rule.
#[verifier::external_body]
pub(crate) fn duration_div(d: Duration, divisor: u32) -> (q: Duration)
    requires
        divisor != 0,
    ensures
        duration_nanos(q) == duration_quotient(duration_nanos(d), divisor),
{
    d / divisor
}

/// The duration of `nanos` nanoseconds.
pub fn duration_from_nanos(nanos: u128) -> (d: Duration)
    requires
        nanos <= max_duration_nanos(),
    ensures
        duration_nanos(d) == nanos,
{
    let secs = nanos / 1_000_000_000;
    let rest = nanos % 1_000_000_000;
    assert(secs <= u64::MAX) by (nonlinear_arith)
        requires secs == nanos / 1_000_000_000, nanos <= max_duration_nanos();
    duration_new(secs as u64, rest as u32)
}

} // verus!
