//! The clock: raw ticks, and the nanoseconds between two of them.

use vstd::prelude::*;
use quanta::Clock;

verus! {

#[verifier::external_type_specification]
#[verifier::external_body]
pub struct ExClock(Clock);

/// `quanta::Clock::raw`: the current value of the clock's source, in ticks.
/// Nothing is claimed of the value: it depends on the moment of the call.
#[verifier::external_body]
pub(crate) fn raw_ticks(clock: &Clock) -> (ticks: u64) {
    clock.raw()
}

/// What `quanta::Clock::delta` returns for `clock` and the two ticks, in
/// nanoseconds. The crate computes it from the ticks and from the scale that
/// the clock was given when it was made, and from nothing else.
pub uninterp spec fn delta_of(clock: &Clock, start: u64, end: u64) -> u64;

/// Whether `nanos` is what the clock makes of two ticks.
pub open spec fn timed_by(clock: &Clock, nanos: u64) -> bool {
    exists|start: u64, end: u64| nanos == #[trigger] delta_of(clock, start, end)
}

/// `quanta::Clock::delta`, read in nanoseconds. The crate returns a zero
/// duration when `end` is not after `start`, and otherwise builds the duration
/// from a 64-bit count of nanoseconds that it scales the ticks' difference to.
#[verifier::external_body]
pub(crate) fn delta_nanos(clock: &Clock, start: u64, end: u64) -> (nanos: u128)
    ensures
        nanos == delta_of(clock, start, end),
        end <= start ==> nanos == 0,
{
    clock.delta(start, end).as_nanos()
}

/// The nanoseconds from tick `start` to tick `end`, as the clock scales
/// them. Two cores need not agree on the tick count, so `end` may lie before
/// `start`: the result is then zero, never a wrapped difference.
pub fn elapsed_nanos(clock: &Clock, start: u64, end: u64) -> (nanos: u64)
    ensures
        nanos == delta_of(clock, start, end),
        end <= start ==> nanos == 0,
{
    let nanos = delta_nanos(clock, start, end);
    nanos as u64
}

} // verus!
