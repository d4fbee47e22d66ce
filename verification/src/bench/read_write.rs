//! Causal read/write on two cache lines: each thread writes one flag and
//! reads the other, and publishes only after it has seen its peer's last
//! write.

use vstd::prelude::*;
use std::sync::atomic::{AtomicBool, Ordering};
use std::sync::Barrier;
use cache_padded::CachePadded;
use quanta::Clock;
use crate::affinity::pin_current_thread_to;
use crate::bench::Count;
use crate::clock::{elapsed_nanos, raw_ticks, timed_by};
use crate::sample::{
    all_finite, each_latency_over, each_timed_by, lemma_kept_finite, lemma_kept_latencies,
    lemma_kept_timed, lemma_latencies_finite, round_trip_latency, Sample,
};
use crate::sync::{await_flag, new_barrier, rendezvous, run_pair, spun, unpadded};

verus! {

/// The read/write protocol.
pub struct Bench {}

/// What the two threads of one run share, each field on a cache line of its
/// own.
struct Shared {
    barrier: CachePadded<Barrier>,
    owned_by_ping: CachePadded<AtomicBool>,
    owned_by_pong: CachePadded<AtomicBool>,
}

/// Reads the flag, with acquire ordering, until it holds `value` or was read
/// `SPIN_LIMIT` times. Returns whether it held `value`, and its readings.
fn await_value(flag: &AtomicBool, value: bool) -> (spin: (bool, Ghost<Seq<bool>>))
    ensures
        spun(spin.1@, spin.0),
{
    await_flag(flag, value, Ordering::Acquire)
}

/// The peer: waits for each value of the timed thread's flag and answers
/// with the opposite value in its own.
fn pong(state: &Shared, core: usize, num_round_trips: Count, num_samples: Count) {
    pin_current_thread_to(core);
    rendezvous(unpadded(&state.barrier));
    let mut v = false;
    let mut sample: Count = 0;
    while sample < num_samples
        invariant
            sample <= num_samples,
        decreases num_samples - sample,
    {
        let mut trip: Count = 0;
        while trip < num_round_trips
            invariant
                trip <= num_round_trips,
            decreases num_round_trips - trip,
        {
            await_value(unpadded(&state.owned_by_ping), v);
            unpadded(&state.owned_by_pong).store(!v, Ordering::Release);
            v = !v;
            trip = trip + 1;
        }
        sample = sample + 1;
    }
}

/// The timed thread: per sample, `num_round_trips` exchanges between two
/// readings of the clock.
fn ping(state: &Shared, core: usize, clock: &Clock, num_round_trips: Count, num_samples: Count) -> (samples: Vec<Sample>)
    ensures
        samples.len() == num_samples,
        each_latency_over(samples@, 2 * num_round_trips),
        each_timed_by(samples@, clock),
{
    let mut samples: Vec<Sample> = Vec::new();
    pin_current_thread_to(core);
    rendezvous(unpadded(&state.barrier));
    let mut v = true;
    let mut sample: Count = 0;
    while sample < num_samples
        invariant
            sample <= num_samples,
            samples.len() == sample,
            each_latency_over(samples@, 2 * num_round_trips),
            each_timed_by(samples@, clock),
        decreases num_samples - sample,
    {
        let start = raw_ticks(clock);
        let mut trip: Count = 0;
        while trip < num_round_trips
            invariant
                trip <= num_round_trips,
            decreases num_round_trips - trip,
        {
            await_value(unpadded(&state.owned_by_pong), v);
            unpadded(&state.owned_by_ping).store(v, Ordering::Release);
            v = !v;
            trip = trip + 1;
        }
        let end = raw_ticks(clock);
        let nanos = elapsed_nanos(clock, start, end);
        let ghost before = samples@;
        samples.push(round_trip_latency(nanos, num_round_trips));
        proof {
            assert forall|i: int| 0 <= i < samples.len() implies #[trigger] timed_by(
                clock,
                samples[i].spec_nanos(),
            ) by {
                if i < before.len() {
                    assert(samples[i] == before[i]);
                    assert(timed_by(clock, before[i].spec_nanos()));
                }
            }
        }
        sample = sample + 1;
    }
    samples
}

impl Bench {
    pub fn new() -> (bench: Self) {
        Bench {  }
    }
}

impl crate::bench::Bench for Bench {
    open spec fn symmetric(&self) -> bool {
        true
    }

    /// The timed thread runs on `cores.0`, its peer on `cores.1`. Every
    /// sample is the time of `num_round_trips` round trips, which are twice
    /// as many handshakes.
    fn run(&self, cores: (usize, usize), clock: &Clock, num_round_trips: Count, num_samples: Count) -> (samples: Vec<Sample>)
        ensures
            each_latency_over(samples@, 2 * num_round_trips),
            num_round_trips > 0 ==> all_finite(samples@),
            each_timed_by(samples@, clock),
    {
        let state = Shared {
            barrier: CachePadded::new(new_barrier(2)),
            owned_by_ping: CachePadded::new(AtomicBool::new(false)),
            owned_by_pong: CachePadded::new(AtomicBool::new(false)),
        };
        let ping_core = cores.0;
        let pong_core = cores.1;
        let timed = || -> (samples: Vec<Sample>)
            ensures
                samples.len() == num_samples,
                each_latency_over(samples@, 2 * num_round_trips),
                each_timed_by(samples@, clock),
            { ping(&state, ping_core, clock, num_round_trips, num_samples) };
        let peer = || { pong(&state, pong_core, num_round_trips, num_samples) };
        let samples = run_pair(timed, peer);
        proof {
            if num_round_trips > 0 {
                lemma_latencies_finite(samples@, 2 * num_round_trips);
            }
        }
        samples
    }

    fn is_symmetric(&self) -> (symmetric: bool) {
        true
    }
}

/// What the harness keeps of a run of this protocol: latencies over two handshakes for each round trip,
/// which all have a value where there is at least one round trip.
pub proof fn lemma_kept_samples(bench: &Bench, cores: (usize, usize), clock: &Clock, num_round_trips: Count, num_samples: Count, samples: Seq<Sample>)
    requires
        num_samples < u32::MAX,
        crate::bench::kept_of_run(bench, cores, clock, num_round_trips, num_samples, samples),
    ensures
        samples.len() == num_samples,
        each_latency_over(samples, 2 * num_round_trips),
        num_round_trips > 0 ==> all_finite(samples),
        each_timed_by(samples, clock),
{
    let all = choose|all: Vec<Sample>|
        #[trigger] call_ensures(
            <Bench as crate::bench::Bench>::run,
            (bench, cores, clock, num_round_trips, (1 + num_samples) as u32),
            all,
        ) && samples == all@.subrange(1, all.len() as int);
    lemma_kept_latencies(all@, 2 * num_round_trips);
    lemma_kept_timed(all@, clock);
    if num_round_trips > 0 {
        lemma_kept_finite(all@);
    }
}

} // verus!
