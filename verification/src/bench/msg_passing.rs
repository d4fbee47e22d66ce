//! One-way message passing over many cache lines: the sender stamps one slot
//! per message with its clock, the receiver takes each stamp as soon as it
//! shows and adds up how long the messages were under way.

use vstd::prelude::*;
use std::sync::atomic::{AtomicU64, Ordering};
use std::sync::Barrier;
use cache_padded::CachePadded;
use quanta::Clock;
use crate::affinity::pin_current_thread_to;
use crate::bench::Count;
use crate::clock::{delta_of, elapsed_nanos, raw_ticks};
use crate::sample::{
    add_receipt, all_finite, batch_ticks, corrected, each_latency_over, lemma_kept_finite,
    lemma_kept_latencies, lemma_latencies_finite, one_way_latency, read_stamp, relative_ticks,
    send_stamp, stamp_read, Receipt, Sample,
};
use crate::sync::{new_barrier, rendezvous, run_pair, unpadded, SPIN_LIMIT};
use crate::utils::{clock_read_overhead_sum, delay_cycles, read_cost};

verus! {

/// Passes of the delay loop that the sender lets go by before each message,
/// unless told otherwise.
pub const DEFAULT_SEND_DELAY: usize = 10000;

/// The message-passing protocol.
pub struct Bench {
    /// The number of slots, which is the number of messages in a batch.
    num_slots: Count,
    /// Passes of the delay loop before each message.
    send_delay: usize,
}

/// What the two threads of one run share: the barrier, and one slot per
/// message, each on a cache line of its own. A slot that holds zero is empty.
struct Shared {
    barrier: Barrier,
    clocks: Vec<CachePadded<AtomicU64>>,
}

/// What a wait at a slot has to show for its readings: there was at least
/// one and there were at most `SPIN_LIMIT`, all but the last were zero, the
/// wait returns the stamp that the last one holds, and it returns none only
/// after `SPIN_LIMIT` readings.
pub open spec fn waited(readings: Seq<u64>, stamp: Option<u64>) -> bool {
    &&& 1 <= readings.len() <= SPIN_LIMIT
    &&& forall|k: int| 0 <= k < readings.len() - 1 ==> #[trigger] readings[k] == 0
    &&& stamp == stamp_read(readings.last())
    &&& stamp is None ==> readings.len() == SPIN_LIMIT
}

/// Reads the slot until it holds something else than zero, and returns what
/// it holds, with its readings. Returns `None` only when `SPIN_LIMIT`
/// readings have all been zero.
pub fn wait_for_non_zero_value(atomic_value: &AtomicU64, ordering: Ordering) -> (spin: (
    Option<u64>,
    Ghost<Seq<u64>>,
))
    requires
        ordering != Ordering::Release,
        ordering != Ordering::AcqRel,
    ensures
        waited(spin.1@, spin.0),
        spin.0 matches Some(v) ==> v != 0,
{
    let mut left: u64 = SPIN_LIMIT;
    let ghost mut readings: Seq<u64> = Seq::empty();
    while left > 0
        invariant
            ordering != Ordering::Release,
            ordering != Ordering::AcqRel,
            readings.len() == SPIN_LIMIT - left,
            forall|k: int| 0 <= k < readings.len() ==> #[trigger] readings[k] == 0,
        decreases left,
    {
        let reading = atomic_value.load(ordering);
        proof {
            readings = readings.push(reading);
        }
        let stamp = read_stamp(reading);
        if stamp.is_some() {
            return (stamp, Ghost(readings));
        }
        left = left - 1;
    }
    (None, Ghost(readings))
}

/// As many empty slots as there are messages in a batch.
fn empty_slots(num_slots: Count) -> (slots: Vec<CachePadded<AtomicU64>>)
    ensures
        slots.len() == num_slots,
{
    let mut slots: Vec<CachePadded<AtomicU64>> = Vec::new();
    let mut made: Count = 0;
    while made < num_slots
        invariant
            made <= num_slots,
            slots.len() == made,
        decreases num_slots - made,
    {
        slots.push(CachePadded::new(AtomicU64::new(0)));
        made = made + 1;
    }
    slots
}

/// Whether `receipts` can be those of one batch over `num_slots` slots: one
/// for each slot, none with a stamp of zero.
pub open spec fn batch_receipts(receipts: Seq<Receipt>, num_slots: nat) -> bool {
    &&& receipts.len() == num_slots
    &&& forall|k: int| 0 <= k < receipts.len() ==> (#[trigger] receipts[k]).stamp != Some(0u64)
}

/// Whether `sample` is what the batch with `receipts` gives: the ticks that
/// its messages were under way, as the clock scales them to nanoseconds,
/// less `overhead_nanos` and not less than zero, to be divided by
/// `num_iterations`.
pub open spec fn sample_of_batch(sample: Sample, clock: &Clock, receipts: Seq<Receipt>, overhead_nanos: u64, num_iterations: Count) -> bool {
    sample == (Sample::Latency {
        nanos: corrected(delta_of(clock, 0, batch_ticks(receipts)), overhead_nanos),
        handshakes: num_iterations as u64,
    })
}

/// Whether `sample` is what some batch over `num_slots` slots gives.
pub open spec fn batch_sample(sample: Sample, clock: &Clock, num_slots: nat, overhead_nanos: u64, num_iterations: Count) -> bool {
    exists|receipts: Seq<Receipt>|
        batch_receipts(receipts, num_slots) && #[trigger] sample_of_batch(
            sample,
            clock,
            receipts,
            overhead_nanos,
            num_iterations,
        )
}

/// Whether every sample is what some batch over `num_slots` slots gives.
pub open spec fn each_batch_sample(samples: Seq<Sample>, clock: &Clock, num_slots: nat, overhead_nanos: u64, num_iterations: Count) -> bool {
    forall|k: int|
        0 <= k < samples.len() ==> #[trigger] batch_sample(
            samples[k],
            clock,
            num_slots,
            overhead_nanos,
            num_iterations,
        )
}

/// Whether `samples` can be those of one run: each is what a batch gives,
/// with one and the same cost of `num_iterations` readings of the clock
/// taken off.
pub open spec fn samples_of_run(samples: Seq<Sample>, clock: &Clock, num_slots: nat, num_iterations: Count) -> bool {
    exists|overhead_nanos: u64|
        read_cost(clock, num_iterations, overhead_nanos) && #[trigger] each_batch_sample(
            samples,
            clock,
            num_slots,
            overhead_nanos,
            num_iterations,
        )
}

/// The receiver's part in one batch: takes the stamp of every slot in turn
/// and returns the sum of the ticks that the messages were under way, with
/// the receipts that it is the sum of. A slot that stays empty adds nothing.
fn receive_batch(state: &Shared, clock: &Clock, start_time: u64) -> (batch: (u64, Ghost<Seq<Receipt>>))
    ensures
        batch_receipts(batch.1@, state.clocks@.len()),
        batch.0 == batch_ticks(batch.1@),
{
    let mut latency: u64 = 0;
    let ghost mut receipts: Seq<Receipt> = Seq::empty();
    let mut slot: usize = 0;
    while slot < state.clocks.len()
        invariant
            slot <= state.clocks.len(),
            receipts.len() == slot,
            latency == batch_ticks(receipts),
            forall|k: int| 0 <= k < receipts.len() ==> (#[trigger] receipts[k]).stamp != Some(0u64),
        decreases state.clocks.len() - slot,
    {
        // the cost of reading the clock here is taken off the batch's total
        let (sent, _) =
            wait_for_non_zero_value(unpadded(&state.clocks[slot]), Ordering::Relaxed);
        let recv_time = relative_ticks(raw_ticks(clock), start_time);
        proof {
            let receipt = Receipt { stamp: sent, received_at: recv_time };
            assert(receipts.push(receipt).drop_last() =~= receipts);
            receipts = receipts.push(receipt);
        }
        latency = add_receipt(latency, sent, recv_time);
        slot = slot + 1;
    }
    (latency, Ghost(receipts))
}

/// The sender's part in one batch: stamps every slot in turn, each after a
/// delay that lets the receiver get there first.
fn send_batch(state: &Shared, clock: &Clock, start_time: u64, send_delay: usize) {
    let mut slot: usize = 0;
    while slot < state.clocks.len()
        invariant
            slot <= state.clocks.len(),
        decreases state.clocks.len() - slot,
    {
        delay_cycles(send_delay);
        let send_time = send_stamp(raw_ticks(clock), start_time);
        unpadded(&state.clocks[slot]).store(send_time, Ordering::Relaxed);
        slot = slot + 1;
    }
}

/// Empties every slot for the next batch.
fn clear_slots(state: &Shared) {
    let mut slot: usize = 0;
    while slot < state.clocks.len()
        invariant
            slot <= state.clocks.len(),
        decreases state.clocks.len() - slot,
    {
        unpadded(&state.clocks[slot]).store(0, Ordering::Relaxed);
        slot = slot + 1;
    }
}

/// The timed thread. Per sample it meets the sender, receives a batch, meets
/// the sender again, and turns the batch's ticks into a sample.
fn receiver(
    state: &Shared,
    core: usize,
    clock: &Clock,
    start_time: u64,
    overhead_nanos: u64,
    num_iterations: Count,
    num_samples: Count,
) -> (samples: Vec<Sample>)
    ensures
        samples.len() == num_samples,
        each_latency_over(samples@, num_iterations as int),
        each_batch_sample(
            samples@,
            clock,
            state.clocks@.len(),
            overhead_nanos,
            num_iterations,
        ),
{
    pin_current_thread_to(core);
    let mut samples: Vec<Sample> = Vec::new();
    rendezvous(&state.barrier);
    let mut sample: Count = 0;
    while sample < num_samples
        invariant
            sample <= num_samples,
            samples.len() == sample,
            each_latency_over(samples@, num_iterations as int),
            each_batch_sample(
                samples@,
                clock,
                state.clocks@.len(),
                overhead_nanos,
                num_iterations,
            ),
        decreases num_samples - sample,
    {
        rendezvous(&state.barrier);
        let (latency, Ghost(receipts)) = receive_batch(state, clock, start_time);
        rendezvous(&state.barrier);
        let total_nanos = elapsed_nanos(clock, 0, latency);
        let ghost before = samples@;
        samples.push(one_way_latency(total_nanos, overhead_nanos, num_iterations));
        proof {
            assert forall|k: int| 0 <= k < samples.len() implies #[trigger] batch_sample(
                samples[k],
                clock,
                state.clocks@.len(),
                overhead_nanos,
                num_iterations,
            ) by {
                if k < before.len() {
                    assert(samples[k] == before[k]);
                } else {
                    assert(sample_of_batch(
                        samples[k],
                        clock,
                        receipts,
                        overhead_nanos,
                        num_iterations,
                    ));
                }
            }
        }
        sample = sample + 1;
    }
    samples
}

/// The peer. Per sample it meets the receiver, sends a batch, meets the
/// receiver again, and clears the slots.
fn sender(state: &Shared, core: usize, clock: &Clock, start_time: u64, send_delay: usize, num_samples: Count) {
    pin_current_thread_to(core);
    rendezvous(&state.barrier);
    let mut sample: Count = 0;
    while sample < num_samples
        invariant
            sample <= num_samples,
        decreases num_samples - sample,
    {
        rendezvous(&state.barrier);
        send_batch(state, clock, start_time, send_delay);
        rendezvous(&state.barrier);
        clear_slots(state);
        sample = sample + 1;
    }
}

impl Bench {
    /// The protocol with batches of `num_iterations` messages and the
    /// default delay before each.
    pub fn new(num_iterations: u32) -> (bench: Self)
        ensures
            bench.batch_size() == num_iterations,
            bench.send_delay() == DEFAULT_SEND_DELAY,
    {
        Bench { num_slots: num_iterations, send_delay: DEFAULT_SEND_DELAY }
    }

    /// The protocol with batches of `num_iterations` messages and
    /// `send_delay` passes of the delay loop before each.
    pub fn with_send_delay(num_iterations: u32, send_delay: usize) -> (bench: Self)
        ensures
            bench.batch_size() == num_iterations,
            bench.send_delay() == send_delay,
    {
        Bench { num_slots: num_iterations, send_delay }
    }

    pub closed spec fn batch_size(&self) -> Count {
        self.num_slots
    }

    pub closed spec fn send_delay(&self) -> usize {
        self.send_delay
    }
}

impl crate::bench::Bench for Bench {
    open spec fn symmetric(&self) -> bool {
        false
    }

    /// The receiver, which is timed, runs on `cores.0`, the sender on
    /// `cores.1`. Every sample is the time that a batch's messages were under
    /// way in all, less the cost of `num_iterations` readings of the clock,
    /// to be divided by `num_iterations`.
    fn run(&self, cores: (usize, usize), clock: &Clock, num_iterations: Count, num_samples: Count) -> (samples: Vec<Sample>)
        ensures
            each_latency_over(samples@, num_iterations as int),
            num_iterations > 0 ==> all_finite(samples@),
            samples_of_run(samples@, clock, self.batch_size() as nat, num_iterations),
    {
        let overhead_nanos = clock_read_overhead_sum(clock, num_iterations);
        // the one reading that both threads count from
        let start_time = raw_ticks(clock);
        let state = Shared { barrier: new_barrier(2), clocks: empty_slots(self.num_slots) };
        let recv_core = cores.0;
        let send_core = cores.1;
        let send_delay = self.send_delay;
        let timed = || -> (samples: Vec<Sample>)
            ensures
                samples.len() == num_samples,
                each_latency_over(samples@, num_iterations as int),
                each_batch_sample(
                    samples@,
                    clock,
                    state.clocks@.len(),
                    overhead_nanos,
                    num_iterations,
                ),
            {
                receiver(
                    &state,
                    recv_core,
                    clock,
                    start_time,
                    overhead_nanos,
                    num_iterations,
                    num_samples,
                )
            };
        let peer = || { sender(&state, send_core, clock, start_time, send_delay, num_samples) };
        let samples = run_pair(timed, peer);
        proof {
            if num_iterations > 0 {
                lemma_latencies_finite(samples@, num_iterations as int);
            }
            assert(each_batch_sample(
                samples@,
                clock,
                self.batch_size() as nat,
                overhead_nanos,
                num_iterations,
            ));
        }
        samples
    }

    fn is_symmetric(&self) -> (symmetric: bool) {
        false
    }
}

/// What the harness keeps of a run of this protocol: latencies over one
/// handshake for each message, which all have a value where there is at
/// least one message, each what a batch gives with the one cost of reading
/// the clock taken off.
pub proof fn lemma_kept_samples(bench: &Bench, cores: (usize, usize), clock: &Clock, num_iterations: Count, num_samples: Count, samples: Seq<Sample>)
    requires
        num_samples < u32::MAX,
        crate::bench::kept_of_run(bench, cores, clock, num_iterations, num_samples, samples),
    ensures
        samples.len() == num_samples,
        each_latency_over(samples, num_iterations as int),
        num_iterations > 0 ==> all_finite(samples),
        samples_of_run(samples, clock, bench.batch_size() as nat, num_iterations),
{
    let all = choose|all: Vec<Sample>|
        #[trigger] call_ensures(
            <Bench as crate::bench::Bench>::run,
            (bench, cores, clock, num_iterations, (1 + num_samples) as u32),
            all,
        ) && samples == all@.subrange(1, all.len() as int);
    lemma_kept_latencies(all@, num_iterations as int);
    if num_iterations > 0 {
        lemma_kept_finite(all@);
    }
    let num_slots = bench.batch_size() as nat;
    let overhead_nanos = choose|overhead_nanos: u64|
        read_cost(clock, num_iterations, overhead_nanos) && #[trigger] each_batch_sample(
            all@,
            clock,
            num_slots,
            overhead_nanos,
            num_iterations,
        );
    assert forall|k: int| 0 <= k < samples.len() implies #[trigger] batch_sample(
        samples[k],
        clock,
        num_slots,
        overhead_nanos,
        num_iterations,
    ) by {
        assert(samples[k] == all@[k + 1]);
        assert(batch_sample(all@[k + 1], clock, num_slots, overhead_nanos, num_iterations));
    }
    assert(each_batch_sample(samples, clock, num_slots, overhead_nanos, num_iterations));
}

} // verus!
