//! Durations and the clock.
//!
//! Nothing in this module is proved. Each function hands its arguments to one
//! function of `std::time`, and its contract says what that function's
//! documentation says. Of the clock nothing is said: what it returns depends
//! on when it is asked.

use std::time::{Duration, Instant};
use vstd::prelude::*;

verus! {

#[verifier::external_type_specification]
#[verifier::external_body]
pub struct ExInstant(Instant);

/// The length of a duration in nanoseconds: what `Duration::as_nanos`
/// returns.
pub uninterp spec fn duration_nanos(duration: Duration) -> nat;

/// The longest `Duration` in nanoseconds: `u64::MAX` seconds and 999,999,999
/// nanoseconds.
pub open spec fn duration_max_nanos() -> nat {
    (u64::MAX as nat) * 1_000_000_000 + 999_999_999
}

/// What `Duration::checked_add` returns for durations of so many
/// nanoseconds: their sum in nanoseconds, or `None` where the sum does not
/// fit a `Duration`.
pub open spec fn duration_checked_sum(left: nat, right: nat) -> Option<nat> {
    if left + right <= duration_max_nanos() {
        Some(left + right)
    } else {
        None
    }
}

/// The length in nanoseconds of what the division of a `Duration` of so
/// many nanoseconds by a `u32` returns. std does not say how it rounds.
pub uninterp spec fn duration_quotient(nanos: nat, divisor: nat) -> nat;

/// How `Duration`'s `Debug` impl writes a duration of so many nanoseconds.
pub uninterp spec fn duration_debug_text(nanos: nat) -> Seq<char>;

/// `Duration::ZERO`.
#[verifier::external_body]
pub(crate) fn duration_zero() -> (duration: Duration)
    ensures
        duration_nanos(duration) == 0,
{
    Duration::ZERO
}

/// `Duration::as_nanos`.
#[verifier::external_body]
pub(crate) fn duration_as_nanos(duration: Duration) -> (nanos: u128)
    ensures
        nanos == duration_nanos(duration),
{
    duration.as_nanos()
}

/// `Duration::checked_add`: the sum, unless it is longer than the longest
/// `Duration`.
#[verifier::external_body]
pub(crate) fn duration_checked_add(left: Duration, right: Duration) -> (sum: Option<Duration>)
    ensures
        match sum {
            Some(total) => {
                &&& duration_nanos(total) == duration_nanos(left) + duration_nanos(right)
                &&& duration_checked_sum(duration_nanos(left), duration_nanos(right)) == Some(
                    duration_nanos(total),
                )
            },
            None => duration_checked_sum(duration_nanos(left), duration_nanos(right)) is None,
        },
{
    left.checked_add(right)
}

/// Division of a `Duration` by a `u32`. It panics on a zero divisor, which
/// the precondition rules out. The quotient depends on the length and the
/// divisor alone.
#[verifier::external_body]
pub(crate) fn duration_div(duration: Duration, divisor: u32) -> (quotient: Duration)
    requires
        divisor != 0,
    ensures
        duration_nanos(quotient) == duration_quotient(duration_nanos(duration), divisor as nat),
{
    duration / divisor
}

/// The text that `Duration`'s `Debug` impl writes.
#[verifier::external_body]
pub(crate) fn duration_debug(duration: Duration) -> (text: String)
    ensures
        text@ == duration_debug_text(duration_nanos(duration)),
{
    format!("{:?}", duration)
}

/// `Instant::now`: the present moment.
#[verifier::external_body]
pub(crate) fn clock_now() -> (now: Instant) {
    Instant::now()
}

/// `Instant::elapsed`: the time that has passed since `start`.
#[verifier::external_body]
pub(crate) fn clock_elapsed(start: &Instant) -> (elapsed: Duration) {
    start.elapsed()
}

} // verus!
