//! Bulk memory streaming: a producer fills chunks of memory, a consumer reads
//! every word of them, and a flag per chunk hands it from one to the other.

use vstd::prelude::*;
use std::sync::atomic::{AtomicBool, AtomicU64, Ordering};
use cache_padded::CachePadded;
use quanta::Clock;
use crate::affinity::pin_current_thread_to;
use crate::bench::Count;
use crate::clock::{elapsed_nanos, raw_ticks, timed_by};
use crate::sample::{
    all_finite, each_throughput_of, each_timed_or_one, lemma_kept_finite, lemma_kept_throughputs,
    lemma_kept_timed, repeat_byte, throughput, timed_or_one, Sample,
};
use crate::sync::{await_flag, run_pair, spun, unpadded};
use crate::utils::black_box;

verus! {

pub const KB: usize = 1024;

/// The bytes that one pass moves from the producer to the consumer.
pub const MEM_SIZE: usize = 256 * KB;

/// The flag's value when the chunk holds data that the consumer has not read.
pub const DATA_PRODUCED: bool = false;

/// The flag's value when the producer may overwrite the chunk.
pub const DATA_CONSUMED: bool = true;

/// The chunks that a pass is made of.
pub const N_CHUNKS: usize = 4;

/// The bytes of one word of a chunk.
pub const VALUE_SIZE: usize = 8;

/// The words of one chunk.
pub const N_VALUES_PER_CHUNKS: usize = MEM_SIZE / N_CHUNKS / VALUE_SIZE;

/// The words that are kept together on a boundary of their own: 128 bytes,
/// which is a cache line or a few.
pub const VALUES_PER_LINE: usize = 16;

/// The lines of one chunk.
pub const N_LINES_PER_CHUNKS: usize = N_VALUES_PER_CHUNKS / VALUES_PER_LINE;

/// One chunk of the memory that is streamed: its words, in lines that each
/// start on a cache line's boundary, so that a chunk shares no cache line
/// with anything else.
pub struct MemChunk(Vec<CachePadded<[AtomicU64; 16]>>);

/// A line of words that are all zero.
fn zeroed_line() -> (line: CachePadded<[AtomicU64; 16]>) {
    CachePadded::new(
        [
            AtomicU64::new(0),
            AtomicU64::new(0),
            AtomicU64::new(0),
            AtomicU64::new(0),
            AtomicU64::new(0),
            AtomicU64::new(0),
            AtomicU64::new(0),
            AtomicU64::new(0),
            AtomicU64::new(0),
            AtomicU64::new(0),
            AtomicU64::new(0),
            AtomicU64::new(0),
            AtomicU64::new(0),
            AtomicU64::new(0),
            AtomicU64::new(0),
            AtomicU64::new(0),
        ],
    )
}

impl MemChunk {
    /// Its number of words.
    pub closed spec fn len(&self) -> nat {
        (self.0.len() * VALUES_PER_LINE) as nat
    }

    /// A chunk of `N_VALUES_PER_CHUNKS` words, all zero.
    pub fn new() -> (chunk: Self)
        ensures
            chunk.len() == N_VALUES_PER_CHUNKS,
    {
        let mut lines: Vec<CachePadded<[AtomicU64; 16]>> = Vec::new();
        while lines.len() < N_LINES_PER_CHUNKS
            invariant
                lines.len() <= N_LINES_PER_CHUNKS,
            decreases N_LINES_PER_CHUNKS - lines.len(),
        {
            lines.push(zeroed_line());
        }
        MemChunk(lines)
    }

    /// Sets every byte of the chunk to `byte`.
    fn fill(&self, byte: u8) {
        let word = repeat_byte(byte);
        let mut at: usize = 0;
        while at < self.0.len()
            invariant
                at <= self.0.len(),
            decreases self.0.len() - at,
        {
            let line = unpadded(&self.0[at]);
            let mut k: usize = 0;
            while k < VALUES_PER_LINE
                invariant
                    k <= VALUES_PER_LINE,
                decreases VALUES_PER_LINE - k,
            {
                line[k].store(word, Ordering::Relaxed);
                k = k + 1;
            }
            at = at + 1;
        }
    }

    /// Reads every word of the chunk, none of which the compiler may skip.
    fn read_all(&self) {
        let mut at: usize = 0;
        while at < self.0.len()
            invariant
                at <= self.0.len(),
            decreases self.0.len() - at,
        {
            let line = unpadded(&self.0[at]);
            let mut k: usize = 0;
            while k < VALUES_PER_LINE
                invariant
                    k <= VALUES_PER_LINE,
                decreases VALUES_PER_LINE - k,
            {
                black_box(line[k].load(Ordering::Relaxed));
                k = k + 1;
            }
            at = at + 1;
        }
    }
}

/// The memory-streaming protocol.
pub struct Bench {}

/// What the two threads of one run share: the chunks, and for each a flag on
/// a cache line of its own.
struct Shared {
    data: Vec<MemChunk>,
    flag: Vec<CachePadded<AtomicBool>>,
}

impl Shared {
    spec fn wf(&self) -> bool {
        self.data.len() == N_CHUNKS && self.flag.len() == N_CHUNKS
    }

    /// `N_CHUNKS` zeroed chunks, each free for the producer to fill.
    fn new() -> (state: Self)
        ensures
            state.wf(),
    {
        let mut data: Vec<MemChunk> = Vec::new();
        let mut flag: Vec<CachePadded<AtomicBool>> = Vec::new();
        while data.len() < N_CHUNKS
            invariant
                data.len() == flag.len(),
                data.len() <= N_CHUNKS,
            decreases N_CHUNKS - data.len(),
        {
            data.push(MemChunk::new());
            flag.push(CachePadded::new(AtomicBool::new(DATA_CONSUMED)));
        }
        Shared { data, flag }
    }
}

/// Reads the flag until the consumer has given the chunk back or the flag was
/// read `SPIN_LIMIT` times. Returns whether it was given back, and its readings.
fn await_consumed(flag: &AtomicBool) -> (spin: (bool, Ghost<Seq<bool>>))
    ensures
        spun(spin.1@, spin.0),
{
    await_flag(flag, DATA_CONSUMED, Ordering::Relaxed)
}

/// Reads the flag, with acquire ordering, until the producer has filled the
/// chunk or the flag was read `SPIN_LIMIT` times. Returns whether it was
/// filled, and its readings.
fn await_produced(flag: &AtomicBool) -> (spin: (bool, Ghost<Seq<bool>>))
    ensures
        spun(spin.1@, spin.0),
{
    await_flag(flag, DATA_PRODUCED, Ordering::Acquire)
}

/// One pass of the producer: fills each chunk with `byte` once the consumer
/// has given it back, and hands it over with release ordering.
fn produce_pass(state: &Shared, byte: u8)
    requires
        state.wf(),
{
    let mut i: usize = 0;
    while i < N_CHUNKS
        invariant
            state.wf(),
            i <= N_CHUNKS,
        decreases N_CHUNKS - i,
    {
        await_consumed(unpadded(&state.flag[i]));
        state.data[i].fill(byte);
        unpadded(&state.flag[i]).store(DATA_PRODUCED, Ordering::Release);
        i = i + 1;
    }
}

/// One pass of the consumer: reads each chunk in full once the producer has
/// filled it, and gives it back.
fn consume_pass(state: &Shared)
    requires
        state.wf(),
{
    let mut i: usize = 0;
    while i < N_CHUNKS
        invariant
            state.wf(),
            i <= N_CHUNKS,
        decreases N_CHUNKS - i,
    {
        await_produced(unpadded(&state.flag[i]));
        state.data[i].read_all();
        unpadded(&state.flag[i]).store(DATA_CONSUMED, Ordering::Relaxed);
        i = i + 1;
    }
}

/// The peer: `num_round_trips` passes per sample, each with the next byte
/// value.
fn producer(state: &Shared, core: usize, num_round_trips: Count, num_samples: Count)
    requires
        state.wf(),
{
    pin_current_thread_to(core);
    let mut byte: u8 = 0;
    let mut sample: Count = 0;
    while sample < num_samples
        invariant
            state.wf(),
            sample <= num_samples,
        decreases num_samples - sample,
    {
        let mut trip: Count = 0;
        while trip < num_round_trips
            invariant
                state.wf(),
                trip <= num_round_trips,
            decreases num_round_trips - trip,
        {
            produce_pass(state, byte);
            byte = byte.wrapping_add(1);
            trip = trip + 1;
        }
        sample = sample + 1;
    }
}

/// The timed thread: per sample, `num_round_trips` passes between two
/// readings of the clock.
fn consumer(state: &Shared, core: usize, clock: &Clock, num_round_trips: Count, num_samples: Count) -> (samples: Vec<Sample>)
    requires
        state.wf(),
    ensures
        samples.len() == num_samples,
        each_throughput_of(samples@, MEM_SIZE * num_round_trips),
        all_finite(samples@),
        each_timed_or_one(samples@, clock),
{
    pin_current_thread_to(core);
    let mut samples: Vec<Sample> = Vec::new();
    let mut sample: Count = 0;
    while sample < num_samples
        invariant
            state.wf(),
            sample <= num_samples,
            samples.len() == sample,
            each_throughput_of(samples@, MEM_SIZE * num_round_trips),
            all_finite(samples@),
            each_timed_or_one(samples@, clock),
        decreases num_samples - sample,
    {
        let start = raw_ticks(clock);
        let mut trip: Count = 0;
        while trip < num_round_trips
            invariant
                state.wf(),
                trip <= num_round_trips,
            decreases num_round_trips - trip,
        {
            consume_pass(state);
            trip = trip + 1;
        }
        let end = raw_ticks(clock);
        assert(MEM_SIZE == 0x4_0000);
        let nanos = elapsed_nanos(clock, start, end);
        let ghost before = samples@;
        samples.push(throughput(MEM_SIZE as u32, num_round_trips, nanos));
        proof {
            assert(timed_by(clock, nanos));
            assert forall|i: int| 0 <= i < samples.len() implies #[trigger] timed_or_one(
                clock,
                samples[i].spec_nanos(),
            ) by {
                if i < before.len() {
                    assert(samples[i] == before[i]);
                    assert(timed_or_one(clock, before[i].spec_nanos()));
                }
            }
        }
        sample = sample + 1;
    }
    samples
}

impl Bench {
    pub fn new() -> (bench: Self) {
        Bench {  }
    }
}

impl crate::bench::Bench for Bench {
    open spec fn symmetric(&self) -> bool {
        false
    }

    /// The consumer, which is timed, runs on `cores.0`, the producer on
    /// `cores.1`. Every sample is the time in which `num_round_trips` passes
    /// of `MEM_SIZE` bytes each went from the one to the other, and at least
    /// one nanosecond.
    fn run(&self, cores: (usize, usize), clock: &Clock, num_round_trips: Count, num_samples: Count) -> (samples: Vec<Sample>)
        ensures
            each_throughput_of(samples@, MEM_SIZE * num_round_trips),
            all_finite(samples@),
            each_timed_or_one(samples@, clock),
    {
        let state = Shared::new();
        let recv_core = cores.0;
        let send_core = cores.1;
        let timed = || -> (samples: Vec<Sample>)
            ensures
                samples.len() == num_samples,
                each_throughput_of(samples@, MEM_SIZE * num_round_trips),
                all_finite(samples@),
                each_timed_or_one(samples@, clock),
            { consumer(&state, recv_core, clock, num_round_trips, num_samples) };
        let peer = || { producer(&state, send_core, num_round_trips, num_samples) };
        run_pair(timed, peer)
    }

    fn is_symmetric(&self) -> (symmetric: bool) {
        false
    }
}

/// What the harness keeps of a run of this protocol: throughputs of
/// `MEM_SIZE` bytes for each pass, which all have a value.
pub proof fn lemma_kept_samples(bench: &Bench, cores: (usize, usize), clock: &Clock, num_round_trips: Count, num_samples: Count, samples: Seq<Sample>)
    requires
        num_samples < u32::MAX,
        crate::bench::kept_of_run(bench, cores, clock, num_round_trips, num_samples, samples),
    ensures
        samples.len() == num_samples,
        each_throughput_of(samples, MEM_SIZE * num_round_trips),
        all_finite(samples),
        each_timed_or_one(samples, clock),
{
    let all = choose|all: Vec<Sample>|
        #[trigger] call_ensures(
            <Bench as crate::bench::Bench>::run,
            (bench, cores, clock, num_round_trips, (1 + num_samples) as u32),
            all,
        ) && samples == all@.subrange(1, all.len() as int);
    lemma_kept_throughputs(all@, MEM_SIZE * num_round_trips);
    lemma_kept_timed(all@, clock);
    lemma_kept_finite(all@);
}

} // verus!
