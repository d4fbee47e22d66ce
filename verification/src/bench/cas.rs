//! Compare-and-swap ping-pong on one shared cache line: the cost of a
//! contended flag, as a spinlock pays it.

use vstd::prelude::*;
use std::sync::atomic::{AtomicBool, Ordering};
use std::sync::Barrier;
use quanta::Clock;
use crate::affinity::pin_current_thread_to;
use crate::bench::Count;
use crate::clock::{elapsed_nanos, raw_ticks, timed_by};
use crate::sample::{
    all_finite, each_latency_over, each_timed_by, lemma_kept_finite, lemma_kept_latencies,
    lemma_kept_timed, lemma_latencies_finite, round_trip_latency, Sample,
};
use crate::sync::{new_barrier, rendezvous, run_pair, spun, SPIN_LIMIT};

verus! {

/// The flag's value when the peer is to move.
pub const PING: bool = false;

/// The flag's value when the timed thread is to move.
pub const PONG: bool = true;

/// The compare-and-swap protocol.
pub struct Bench {}

/// What the two threads of one run share.
struct Shared {
    barrier: Barrier,
    flag: AtomicBool,
}

/// Retries the swap of the flag from `current` to `new` until it succeeds or
/// `SPIN_LIMIT` attempts have failed. Returns whether it did, and its attempts.
fn swap_turn(flag: &AtomicBool, current: bool, new: bool) -> (spin: (bool, Ghost<Seq<bool>>))
    ensures
        spun(spin.1@, spin.0),
{
    let mut left: u64 = SPIN_LIMIT;
    let ghost mut attempts: Seq<bool> = Seq::empty();
    while left > 0
        invariant
            attempts.len() == SPIN_LIMIT - left,
            forall|k: int| 0 <= k < attempts.len() ==> !#[trigger] attempts[k],
        decreases left,
    {
        if flag.compare_exchange(current, new, Ordering::Relaxed, Ordering::Relaxed).is_ok() {
            proof {
                attempts = attempts.push(true);
            }
            return (true, Ghost(attempts));
        }
        proof {
            attempts = attempts.push(false);
        }
        left = left - 1;
    }
    (false, Ghost(attempts))
}

/// The peer: answers every ping of the run with a pong.
fn pong(state: &Shared, core: usize, num_round_trips: Count, num_samples: Count) {
    pin_current_thread_to(core);
    rendezvous(&state.barrier);
    let mut sample: Count = 0;
    while sample < num_samples
        invariant
            sample <= num_samples,
        decreases num_samples - sample,
    {
        let mut trip: Count = 0;
        while trip < num_round_trips
            invariant
                trip <= num_round_trips,
            decreases num_round_trips - trip,
        {
            swap_turn(&state.flag, PING, PONG);
            trip = trip + 1;
        }
        sample = sample + 1;
    }
}

/// The timed thread: per sample, `num_round_trips` pings between two readings
/// of the clock.
fn ping(state: &Shared, core: usize, clock: &Clock, num_round_trips: Count, num_samples: Count) -> (samples: Vec<Sample>)
    ensures
        samples.len() == num_samples,
        each_latency_over(samples@, 2 * num_round_trips),
        each_timed_by(samples@, clock),
{
    pin_current_thread_to(core);
    let mut samples: Vec<Sample> = Vec::new();
    rendezvous(&state.barrier);
    let mut sample: Count = 0;
    while sample < num_samples
        invariant
            sample <= num_samples,
            samples.len() == sample,
            each_latency_over(samples@, 2 * num_round_trips),
            each_timed_by(samples@, clock),
        decreases num_samples - sample,
    {
        let start = raw_ticks(clock);
        let mut trip: Count = 0;
        while trip < num_round_trips
            invariant
                trip <= num_round_trips,
            decreases num_round_trips - trip,
        {
            swap_turn(&state.flag, PONG, PING);
            trip = trip + 1;
        }
        let end = raw_ticks(clock);
        let nanos = elapsed_nanos(clock, start, end);
        let ghost before = samples@;
        samples.push(round_trip_latency(nanos, num_round_trips));
        proof {
            assert forall|i: int| 0 <= i < samples.len() implies #[trigger] timed_by(
                clock,
                samples[i].spec_nanos(),
            ) by {
                if i < before.len() {
                    assert(samples[i] == before[i]);
                    assert(timed_by(clock, before[i].spec_nanos()));
                }
            }
        }
        sample = sample + 1;
    }
    samples
}

impl Bench {
    pub fn new() -> (bench: Self) {
        Bench {  }
    }
}

impl crate::bench::Bench for Bench {
    open spec fn symmetric(&self) -> bool {
        true
    }

    /// The timed thread runs on `cores.0`, its peer on `cores.1`. Every
    /// sample is the time of `num_round_trips` round trips, which are twice
    /// as many handshakes.
    fn run(&self, cores: (usize, usize), clock: &Clock, num_round_trips: Count, num_samples: Count) -> (samples: Vec<Sample>)
        ensures
            each_latency_over(samples@, 2 * num_round_trips),
            num_round_trips > 0 ==> all_finite(samples@),
            each_timed_by(samples@, clock),
    {
        let state = Shared { barrier: new_barrier(2), flag: AtomicBool::new(PING) };
        let ping_core = cores.0;
        let pong_core = cores.1;
        let timed = || -> (samples: Vec<Sample>)
            ensures
                samples.len() == num_samples,
                each_latency_over(samples@, 2 * num_round_trips),
                each_timed_by(samples@, clock),
            { ping(&state, ping_core, clock, num_round_trips, num_samples) };
        let peer = || { pong(&state, pong_core, num_round_trips, num_samples) };
        let samples = run_pair(timed, peer);
        proof {
            if num_round_trips > 0 {
                lemma_latencies_finite(samples@, 2 * num_round_trips);
            }
        }
        samples
    }

    fn is_symmetric(&self) -> (symmetric: bool) {
        true
    }
}

/// What the harness keeps of a run of this protocol: latencies over two handshakes for each round trip,
/// which all have a value where there is at least one round trip.
pub proof fn lemma_kept_samples(bench: &Bench, cores: (usize, usize), clock: &Clock, num_round_trips: Count, num_samples: Count, samples: Seq<Sample>)
    requires
        num_samples < u32::MAX,
        crate::bench::kept_of_run(bench, cores, clock, num_round_trips, num_samples, samples),
    ensures
        samples.len() == num_samples,
        each_latency_over(samples, 2 * num_round_trips),
        num_round_trips > 0 ==> all_finite(samples),
        each_timed_by(samples, clock),
{
    let all = choose|all: Vec<Sample>|
        #[trigger] call_ensures(
            <Bench as crate::bench::Bench>::run,
            (bench, cores, clock, num_round_trips, (1 + num_samples) as u32),
            all,
        ) && samples == all@.subrange(1, all.len() as int);
    lemma_kept_latencies(all@, 2 * num_round_trips);
    lemma_kept_timed(all@, clock);
    if num_round_trips > 0 {
        lemma_kept_finite(all@);
    }
}

} // verus!
