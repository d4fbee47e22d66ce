//! Small tools of the protocols: an opacity barrier, a fixed delay, and the
//! calibration of the clock's own cost.

use vstd::prelude::*;
use quanta::Clock;
use crate::bench::Count;
use crate::clock::{elapsed_nanos, raw_ticks, timed_by};

verus! {

/// `std::hint::black_box`: hands its argument back, in a way that the
/// compiler may not see through, so that computing the argument is not
/// optimised away.
#[verifier::external_body]
pub fn black_box<T>(dummy: T) -> (same: T)
    ensures
        same == dummy,
{
    std::hint::black_box(dummy)
}

/// Spends the time of `num_iterations` passes of an empty loop that the
/// compiler must keep.
pub fn delay_cycles(num_iterations: usize) {
    let value: usize = 0;
    let mut done: usize = 0;
    while done < num_iterations
        invariant
            done <= num_iterations,
        decreases num_iterations - done,
    {
        black_box(&value);
        done = done + 1;
    }
}

/// What `clock_read_overhead_sum` may return for `num_iterations` readings:
/// zero for none, and else what the clock makes of two of its ticks.
pub open spec fn read_cost(clock: &Clock, num_iterations: Count, nanos: u64) -> bool {
    if num_iterations == 0 {
        nanos == 0
    } else {
        timed_by(clock, nanos)
    }
}

/// The nanoseconds that `num_iterations` readings of the clock take, one
/// after the other: the clock is read once to start, then `num_iterations`
/// times, and the result is the time from the first reading to the last, by
/// those two ticks alone. With no reading asked for the clock is not read
/// and the result is zero.
pub fn clock_read_overhead_sum(clock: &Clock, num_iterations: Count) -> (nanos: u64)
    ensures
        read_cost(clock, num_iterations, nanos),
{
    if num_iterations == 0 {
        return 0;
    }
    let start = raw_ticks(clock);
    let mut read: Count = 1;
    while read < num_iterations
        invariant
            1 <= read <= num_iterations,
        decreases num_iterations - read,
    {
        black_box(raw_ticks(clock));
        read = read + 1;
    }
    let end = raw_ticks(clock);
    elapsed_nanos(clock, start, end)
}

/// The readings of the clock that its cost is judged by.
pub const NUM_ITERS: Count = 10_000;

/// What the processor tells of its time stamp counter.
#[derive(Clone, Copy, Debug, PartialEq, Eq, Structural)]
pub enum TscReport {
    /// The processor can not be asked: it is no x86.
    NoCpuid,
    /// The processor gives no information on power management.
    NoPowerInfo,
    /// The counter's rate changes with the processor's state.
    Variant,
    /// The counter runs at one rate whatever the processor's state.
    Invariant,
}

/// Why the clock can not be used where every message is stamped with it.
#[derive(Clone, Copy, Debug, PartialEq, Eq, Structural)]
pub enum ClockError {
    /// The processor is no x86.
    UnsupportedProcessor,
    /// The processor gives no information on power management.
    NoPowerInfo,
    /// The time stamp counter is not invariant.
    VariantTsc,
    /// `NUM_ITERS` readings of the clock took `total_nanos` nanoseconds,
    /// which is outside what a usable clock takes.
    ReadCostOutOfRange { total_nanos: u64 },
}

/// Whether one reading costs at least a tenth of a nanosecond and less than
/// a thousand nanoseconds, `reads` readings having taken `total_nanos`.
pub open spec fn plausible_read_cost(total_nanos: u64, reads: Count) -> bool {
    10 * total_nanos >= reads && total_nanos < 1000 * reads
}

pub fn is_plausible_read_cost(total_nanos: u64, reads: Count) -> (plausible: bool)
    ensures
        plausible == plausible_read_cost(total_nanos, reads),
{
    10 * (total_nanos as u128) >= reads as u128 && (total_nanos as u128) < 1000 * (reads as u128)
}

/// What `report` and the cost of `NUM_ITERS` readings say of the clock: the
/// first of the four reasons against it that holds, or that it is usable.
pub open spec fn clock_verdict(report: TscReport, total_nanos: u64) -> Result<(), ClockError> {
    match report {
        TscReport::NoCpuid => Err(ClockError::UnsupportedProcessor),
        TscReport::NoPowerInfo => Err(ClockError::NoPowerInfo),
        TscReport::Variant => Err(ClockError::VariantTsc),
        TscReport::Invariant => if plausible_read_cost(total_nanos, NUM_ITERS) {
            Ok(())
        } else {
            Err(ClockError::ReadCostOutOfRange { total_nanos })
        },
    }
}

/// Judges the clock by what the processor reports and by the nanoseconds
/// that `NUM_ITERS` readings took.
pub fn judge_clock(report: TscReport, total_nanos: u64) -> (verdict: Result<(), ClockError>)
    ensures
        verdict == clock_verdict(report, total_nanos),
{
    match report {
        TscReport::NoCpuid => Err(ClockError::UnsupportedProcessor),
        TscReport::NoPowerInfo => Err(ClockError::NoPowerInfo),
        TscReport::Variant => Err(ClockError::VariantTsc),
        TscReport::Invariant => if is_plausible_read_cost(total_nanos, NUM_ITERS) {
            Ok(())
        } else {
            Err(ClockError::ReadCostOutOfRange { total_nanos })
        },
    }
}

/// Checks that the clock can stamp messages: the processor must report an
/// invariant time stamp counter, and `NUM_ITERS` readings of the clock must
/// take a plausible time. Returns that time in nanoseconds. The clock is
/// read only where the processor's report allows it.
pub fn assert_rdtsc_usable(clock: &Clock, report: TscReport) -> (usable: Result<u64, ClockError>)
    ensures
        report != TscReport::Invariant ==> usable is Err && clock_verdict(report, 0) == Err::<
            (),
            ClockError,
        >(usable->Err_0),
        report == TscReport::Invariant ==> (match usable {
            Ok(total_nanos) => plausible_read_cost(total_nanos, NUM_ITERS) && read_cost(
                clock,
                NUM_ITERS,
                total_nanos,
            ),
            Err(error) => error matches ClockError::ReadCostOutOfRange { total_nanos }
                && !plausible_read_cost(total_nanos, NUM_ITERS) && read_cost(
                clock,
                NUM_ITERS,
                total_nanos,
            ),
        }),
{
    match report {
        TscReport::NoCpuid => Err(ClockError::UnsupportedProcessor),
        TscReport::NoPowerInfo => Err(ClockError::NoPowerInfo),
        TscReport::Variant => Err(ClockError::VariantTsc),
        TscReport::Invariant => {
            let total_nanos = clock_read_overhead_sum(clock, NUM_ITERS);
            match judge_clock(report, total_nanos) {
                Ok(()) => Ok(total_nanos),
                Err(error) => Err(error),
            }
        },
    }
}

} // verus!
