//! Samples: what one pass of a protocol measured, kept as the integers it was
//! made of, and the formulas that turn clock readings into samples.

use vstd::prelude::*;
use quanta::Clock;
use crate::bench::Count;
use crate::clock::timed_by;

verus! {

/// Bytes in the gigabyte that throughput is reported in.
pub const GB: u64 = 0x4000_0000;

/// Nanoseconds in a second.
pub const NANOS_PER_SEC: u64 = 1_000_000_000;

/// One measurement, kept as the integers it was made of.
#[derive(Clone, Copy, Debug, PartialEq, Eq, Structural)]
pub enum Sample {
    /// `nanos` nanoseconds were spent on `handshakes` one-way handshakes.
    Latency { nanos: u64, handshakes: u64 },
    /// `bytes` bytes went from one thread to the other in `nanos` nanoseconds.
    Throughput { bytes: u64, nanos: u64 },
}

impl Sample {
    /// The time that was measured, in nanoseconds.
    pub open spec fn spec_nanos(self) -> u64 {
        match self {
            Sample::Latency { nanos, .. } => nanos,
            Sample::Throughput { nanos, .. } => nanos,
        }
    }

    /// The sample's value is `numerator / denominator`: nanoseconds per
    /// handshake, or gigabytes per second.
    pub open spec fn numerator(self) -> nat {
        match self {
            Sample::Latency { nanos, .. } => nanos as nat,
            Sample::Throughput { bytes, .. } => bytes as nat * NANOS_PER_SEC as nat,
        }
    }

    pub open spec fn denominator(self) -> nat {
        match self {
            Sample::Latency { handshakes, .. } => handshakes as nat,
            Sample::Throughput { nanos, .. } => nanos as nat * GB as nat,
        }
    }

    /// Whether the value is a number at all: its denominator is not zero.
    pub open spec fn finite(self) -> bool {
        self.denominator() > 0
    }

    #[verifier::when_used_as_spec(spec_nanos)]
    pub fn nanos(self) -> (nanos: u64)
        ensures
            nanos == self.spec_nanos(),
    {
        match self {
            Sample::Latency { nanos, .. } => nanos,
            Sample::Throughput { nanos, .. } => nanos,
        }
    }

    /// The two integers whose quotient is the sample's value.
    pub fn ratio(self) -> (r: (u128, u128))
        ensures
            r.0 == self.numerator(),
            r.1 == self.denominator(),
    {
        match self {
            Sample::Latency { nanos, handshakes } => (nanos as u128, handshakes as u128),
            Sample::Throughput { bytes, nanos } => {
                assert(bytes as nat * NANOS_PER_SEC as nat <= u64::MAX as nat * NANOS_PER_SEC as nat)
                    by (nonlinear_arith)
                    requires
                        bytes <= u64::MAX,
                ;
                assert(nanos as nat * GB as nat <= u64::MAX as nat * GB as nat)
                    by (nonlinear_arith)
                    requires
                        nanos <= u64::MAX,
                ;
                (bytes as u128 * (NANOS_PER_SEC as u128), nanos as u128 * (GB as u128))
            },
        }
    }

    pub fn is_finite(self) -> (finite: bool)
        ensures
            finite == self.finite(),
    {
        match self {
            Sample::Latency { handshakes, .. } => handshakes > 0,
            Sample::Throughput { nanos, .. } => {
                assert(nanos > 0 ==> nanos as nat * GB as nat > 0) by (nonlinear_arith);
                assert(nanos == 0 ==> nanos as nat * GB as nat == 0);
                nanos > 0
            },
        }
    }
}

/// Every sample is a latency over `handshakes` handshakes.
pub open spec fn each_latency_over(samples: Seq<Sample>, handshakes: int) -> bool {
    forall|i: int|
        0 <= i < samples.len() ==> (#[trigger] samples[i]) is Latency && samples[i]->handshakes
            == handshakes
}

/// Every sample's time is what the clock makes of two ticks.
pub open spec fn each_timed_by(samples: Seq<Sample>, clock: &Clock) -> bool {
    forall|i: int|
        0 <= i < samples.len() ==> #[trigger] timed_by(clock, samples[i].spec_nanos())
}

/// Whether `nanos` is what the clock makes of two ticks, or the one
/// nanosecond that stands for none.
pub open spec fn timed_or_one(clock: &Clock, nanos: u64) -> bool {
    exists|measured: u64| #[trigger] timed_by(clock, measured) && nanos == timed_nanos(measured)
}

/// Every sample's time is what the clock makes of two ticks, or the one
/// nanosecond that stands for none.
pub open spec fn each_timed_or_one(samples: Seq<Sample>, clock: &Clock) -> bool {
    forall|i: int|
        0 <= i < samples.len() ==> #[trigger] timed_or_one(clock, samples[i].spec_nanos())
}

/// Times that the clock made of two ticks stay such once the first sample
/// is dropped.
pub proof fn lemma_kept_timed(all: Seq<Sample>, clock: &Clock)
    requires
        all.len() >= 1,
    ensures
        each_timed_by(all, clock) ==> each_timed_by(all.subrange(1, all.len() as int), clock),
        each_timed_or_one(all, clock) ==> each_timed_or_one(
            all.subrange(1, all.len() as int),
            clock,
        ),
{
    let kept = all.subrange(1, all.len() as int);
    if each_timed_by(all, clock) {
        assert forall|i: int| 0 <= i < kept.len() implies #[trigger] timed_by(
            clock,
            kept[i].spec_nanos(),
        ) by {
            assert(kept[i] == all[i + 1]);
            assert(timed_by(clock, all[i + 1].spec_nanos()));
        }
    }
    if each_timed_or_one(all, clock) {
        assert forall|i: int| 0 <= i < kept.len() implies #[trigger] timed_or_one(
            clock,
            kept[i].spec_nanos(),
        ) by {
            assert(kept[i] == all[i + 1]);
            assert(timed_or_one(clock, all[i + 1].spec_nanos()));
        }
    }
}

/// Every sample has a value: none is a division by zero.
pub open spec fn all_finite(samples: Seq<Sample>) -> bool {
    forall|i: int| 0 <= i < samples.len() ==> (#[trigger] samples[i]).finite()
}

/// Latencies over at least one handshake all have a value.
pub proof fn lemma_latencies_finite(samples: Seq<Sample>, handshakes: int)
    requires
        each_latency_over(samples, handshakes),
        handshakes > 0,
    ensures
        all_finite(samples),
{
}

/// What holds of all the samples of a run holds of those that are kept once
/// the first is dropped.
pub proof fn lemma_kept_latencies(all: Seq<Sample>, handshakes: int)
    requires
        all.len() >= 1,
        each_latency_over(all, handshakes),
    ensures
        each_latency_over(all.subrange(1, all.len() as int), handshakes),
{
    let kept = all.subrange(1, all.len() as int);
    assert forall|i: int| 0 <= i < kept.len() implies (#[trigger] kept[i]) is Latency
        && kept[i]->handshakes == handshakes by {
        assert(kept[i] == all[i + 1]);
    }
}

/// Throughputs stay throughputs of as many bytes once the first is dropped.
pub proof fn lemma_kept_throughputs(all: Seq<Sample>, bytes: int)
    requires
        all.len() >= 1,
        each_throughput_of(all, bytes),
    ensures
        each_throughput_of(all.subrange(1, all.len() as int), bytes),
{
    let kept = all.subrange(1, all.len() as int);
    assert forall|i: int| 0 <= i < kept.len() implies (#[trigger] kept[i]) is Throughput
        && kept[i]->bytes == bytes by {
        assert(kept[i] == all[i + 1]);
    }
}

/// Samples that all have a value still have one once the first is dropped.
pub proof fn lemma_kept_finite(all: Seq<Sample>)
    requires
        all.len() >= 1,
        all_finite(all),
    ensures
        all_finite(all.subrange(1, all.len() as int)),
{
    let kept = all.subrange(1, all.len() as int);
    assert forall|i: int| 0 <= i < kept.len() implies (#[trigger] kept[i]).finite() by {
        assert(kept[i] == all[i + 1]);
    }
}

/// A throughput has a value exactly where some time was measured.
pub proof fn lemma_throughput_finite(sample: Sample)
    requires
        sample is Throughput,
    ensures
        sample.finite() <==> sample.spec_nanos() > 0,
{
    assert(sample.spec_nanos() > 0 ==> sample.spec_nanos() as nat * GB as nat > 0)
        by (nonlinear_arith);
}

/// Every sample is a throughput of `bytes` bytes.
pub open spec fn each_throughput_of(samples: Seq<Sample>, bytes: int) -> bool {
    forall|i: int|
        0 <= i < samples.len() ==> (#[trigger] samples[i]) is Throughput && samples[i]->bytes
            == bytes
}

/// The numerators of all the samples together.
pub open spec fn sum_numerators(samples: Seq<Sample>) -> nat
    decreases samples.len(),
{
    if samples.len() == 0 {
        0
    } else {
        sum_numerators(samples.drop_last()) + samples.last().numerator()
    }
}

/// The mean of samples whose values all are numbers of `denominator`ths, as
/// the two integers whose quotient it is: the sum of the values is the sum
/// of the numerators over `denominator`, and the mean is that sum over the
/// number of samples.
pub open spec fn mean(samples: Seq<Sample>, denominator: nat) -> (nat, nat) {
    (sum_numerators(samples), samples.len() * denominator)
}

/// Whether quotient `x` is less than quotient `y`, both with denominators
/// above zero.
pub open spec fn ratio_less(x: (nat, nat), y: (nat, nat)) -> bool {
    x.0 * y.1 < y.0 * x.1
}

/// The sample for `num_round_trips` round trips that took `nanos`
/// nanoseconds: a round trip is two handshakes, so the latency of one
/// handshake is `nanos / num_round_trips / 2`.
pub fn round_trip_latency(nanos: u64, num_round_trips: Count) -> (sample: Sample)
    ensures
        sample == (Sample::Latency { nanos, handshakes: (2 * num_round_trips) as u64 }),
{
    let trips: u64 = num_round_trips as u64;
    Sample::Latency { nanos, handshakes: 2 * trips }
}

/// The ticks from `reference` to `now`, zero when `now` lies before it.
pub open spec fn ticks_since(now: u64, reference: u64) -> u64 {
    if now >= reference {
        (now - reference) as u64
    } else {
        0
    }
}

/// A reading of the clock as ticks since `reference`.
pub fn relative_ticks(now: u64, reference: u64) -> (ticks: u64)
    ensures
        ticks == ticks_since(now, reference),
{
    now.saturating_sub(reference)
}

/// The stamp that a sender leaves in a slot: the ticks since `reference`,
/// and 1 where that would be 0, which in a slot means "empty".
pub fn send_stamp(now: u64, reference: u64) -> (stamp: u64)
    ensures
        stamp == if ticks_since(now, reference) == 0 { 1 } else { ticks_since(now, reference) },
        stamp != 0,
{
    let ticks = relative_ticks(now, reference);
    if ticks == 0 {
        1
    } else {
        ticks
    }
}

/// The ticks that one message was under way, zero when the receiver's clock
/// lies behind the sender's stamp.
pub fn one_way_ticks(received_at: u64, stamp: u64) -> (ticks: u64)
    ensures
        ticks == ticks_since(received_at, stamp),
{
    received_at.saturating_sub(stamp)
}

/// Adds one message's ticks to the sum of a batch; the sum stays at the
/// largest 64-bit value once it is reached.
pub fn add_ticks(sum: u64, ticks: u64) -> (total: u64)
    ensures
        total == if sum + ticks > u64::MAX { u64::MAX as int } else { sum + ticks },
{
    sum.saturating_add(ticks)
}

/// What a reading of a slot holds: no stamp where it is zero, which in a slot
/// means "empty", and else the stamp that it is.
pub open spec fn stamp_read(reading: u64) -> Option<u64> {
    if reading == 0 {
        None
    } else {
        Some(reading)
    }
}

/// Tells an empty slot from a stamp, by one reading of the slot.
pub fn read_stamp(reading: u64) -> (stamp: Option<u64>)
    ensures
        stamp == stamp_read(reading),
{
    if reading == 0 {
        None
    } else {
        Some(reading)
    }
}

/// What the receiver found at one slot: the sender's stamp, or `None` where
/// none came, and the receiver's own clock at that moment, in ticks since the
/// reference that the two threads share.
pub struct Receipt {
    pub stamp: Option<u64>,
    pub received_at: u64,
}

/// The sum of a batch after one more slot: a message adds the ticks that it
/// was under way, and the sum stays at the largest 64-bit value once it is
/// reached; a slot without a message adds nothing.
pub open spec fn with_receipt(sum: u64, receipt: Receipt) -> u64 {
    match receipt.stamp {
        Some(stamp) => if sum + ticks_since(receipt.received_at, stamp) > u64::MAX {
            u64::MAX
        } else {
            (sum + ticks_since(receipt.received_at, stamp)) as u64
        },
        None => sum,
    }
}

/// The sum of a batch: its receipts taken in one after the other.
pub open spec fn batch_ticks(receipts: Seq<Receipt>) -> u64
    decreases receipts.len(),
{
    if receipts.len() == 0 {
        0
    } else {
        with_receipt(batch_ticks(receipts.drop_last()), receipts.last())
    }
}

/// Takes one more slot into the sum of a batch.
pub fn add_receipt(sum: u64, stamp: Option<u64>, received_at: u64) -> (total: u64)
    ensures
        total == with_receipt(sum, Receipt { stamp, received_at }),
{
    match stamp {
        Some(stamp) => add_ticks(sum, one_way_ticks(received_at, stamp)),
        None => sum,
    }
}

/// What is left of `total_nanos` once the cost of reading the clock is taken
/// off: never less than zero.
pub open spec fn corrected(total_nanos: u64, overhead_nanos: u64) -> u64 {
    if total_nanos >= overhead_nanos {
        (total_nanos - overhead_nanos) as u64
    } else {
        0
    }
}

/// Taking the cost of reading the clock off a total gives the difference
/// where the total covers the cost, and zero where it does not: never less
/// than zero, whatever the two are.
pub proof fn lemma_correction_clamps(total_nanos: u64, overhead_nanos: u64)
    ensures
        0 <= corrected(total_nanos, overhead_nanos) <= total_nanos,
        total_nanos >= overhead_nanos ==> corrected(total_nanos, overhead_nanos) + overhead_nanos
            == total_nanos,
        total_nanos <= overhead_nanos ==> corrected(total_nanos, overhead_nanos) == 0,
{
}

/// The sample for a batch of `num_messages` messages whose one-way times add
/// up to `total_nanos`, the receiver having read the clock once per message
/// at a cost of `overhead_nanos` in all: the latency of one message is
/// `(total_nanos - overhead_nanos) / num_messages`, the difference taken as
/// zero where the cost exceeds the total.
pub fn one_way_latency(total_nanos: u64, overhead_nanos: u64, num_messages: Count) -> (sample:
    Sample)
    ensures
        sample == (Sample::Latency {
            nanos: corrected(total_nanos, overhead_nanos),
            handshakes: num_messages as u64,
        }),
{
    Sample::Latency {
        nanos: total_nanos.saturating_sub(overhead_nanos),
        handshakes: num_messages as u64,
    }
}

/// The nanoseconds that a throughput is taken over: the time measured, and
/// one nanosecond where the clock showed none, so that the throughput is a
/// number.
pub open spec fn timed_nanos(nanos: u64) -> u64 {
    if nanos == 0 {
        1
    } else {
        nanos
    }
}

/// The sample for `passes` passes over `bytes_per_pass` bytes that took
/// `nanos` nanoseconds by the clock. Its value is a number whatever the
/// clock showed.
pub fn throughput(bytes_per_pass: u32, passes: Count, nanos: u64) -> (sample: Sample)
    ensures
        sample == (Sample::Throughput {
            bytes: (bytes_per_pass * passes) as u64,
            nanos: timed_nanos(nanos),
        }),
        sample.finite(),
{
    assert(bytes_per_pass * passes <= u32::MAX * u32::MAX) by (nonlinear_arith)
        requires
            bytes_per_pass <= u32::MAX,
            passes <= u32::MAX,
    ;
    let timed: u64 = if nanos == 0 {
        1
    } else {
        nanos
    };
    assert(timed as nat * GB as nat > 0) by (nonlinear_arith)
        requires
            timed > 0,
            GB > 0,
    ;
    Sample::Throughput { bytes: bytes_per_pass as u64 * passes as u64, nanos: timed }
}

/// A count as an index or a length.
pub fn count_to_usize(count: Count) -> (n: usize)
    ensures
        n == count,
{
    count as usize
}

/// The 64-bit word whose eight bytes all are `byte`.
pub fn repeat_byte(byte: u8) -> (word: u64)
    ensures
        word == byte * 0x0101_0101_0101_0101,
{
    byte as u64 * 0x0101_0101_0101_0101u64
}

} // verus!
