use core_to_core_latency::bench::Bench;
use core_to_core_latency::bench::{cas, mem, msg_passing, read_write};
use core_to_core_latency::sample::Sample;
use std::sync::atomic::{AtomicU64, Ordering};

fn two_cores() -> (usize, usize) {
    let ids = core_affinity::get_core_ids().expect("the system lists its hardware threads");
    assert!(ids.len() >= 2, "two hardware threads are needed");
    (ids[0].id, ids[1].id)
}

fn value(sample: &Sample) -> f64 {
    let (numerator, denominator) = sample.ratio();
    numerator as f64 / denominator as f64
}

#[test]
fn cas_fifty_samples_of_a_thousand_round_trips() {
    let clock = quanta::Clock::new();
    let samples = cas::Bench::new().run(two_cores(), &clock, 1000, 50);
    assert_eq!(samples.len(), 50);
    for s in &samples {
        assert!(matches!(s, Sample::Latency { handshakes: 2000, .. }));
        assert!(s.is_finite());
        assert!(s.nanos() > 0);
        assert!(value(s) > 0.0);
    }
}

#[test]
fn cas_on_a_clock_that_stands_still_measures_zero() {
    let (clock, _mock) = quanta::Clock::mock();
    let samples = cas::Bench::new().run(two_cores(), &clock, 100, 7);
    assert_eq!(samples, vec![Sample::Latency { nanos: 0, handshakes: 200 }; 7]);
}

#[test]
fn cas_state_is_fresh_for_every_run() {
    let (clock, _mock) = quanta::Clock::mock();
    let bench = cas::Bench::new();
    let (a, b) = two_cores();
    assert_eq!(bench.run((a, b), &clock, 3, 3).len(), 3);
    assert_eq!(bench.run((b, a), &clock, 3, 3).len(), 3);
}

#[test]
fn cas_without_samples_returns_none() {
    let (clock, _mock) = quanta::Clock::mock();
    assert!(cas::Bench::new().run(two_cores(), &clock, 10, 0).is_empty());
}

#[test]
fn cas_without_round_trips_is_not_finite() {
    let (clock, _mock) = quanta::Clock::mock();
    let samples = cas::Bench::new().run(two_cores(), &clock, 0, 2);
    assert_eq!(samples, vec![Sample::Latency { nanos: 0, handshakes: 0 }; 2]);
    assert!(!samples[0].is_finite());
}

#[test]
fn latency_protocols_are_symmetric() {
    assert!(cas::Bench::new().is_symmetric());
    assert!(read_write::Bench::new().is_symmetric());
}

#[test]
fn one_way_protocols_are_directional() {
    assert!(!msg_passing::Bench::new(10).is_symmetric());
    assert!(!mem::Bench::new().is_symmetric());
}

#[test]
fn symmetric_protocols_run_in_both_orders() {
    let clock = quanta::Clock::new();
    let (a, b) = two_cores();
    let forth = cas::Bench::new().run((a, b), &clock, 200, 20);
    let back = cas::Bench::new().run((b, a), &clock, 200, 20);
    assert_eq!(forth.len(), 20);
    assert_eq!(back.len(), 20);
    let forth = read_write::Bench::new().run((a, b), &clock, 200, 20);
    let back = read_write::Bench::new().run((b, a), &clock, 200, 20);
    assert_eq!(forth.len(), 20);
    assert_eq!(back.len(), 20);
}

#[test]
fn read_write_with_an_odd_number_of_exchanges_runs_twice() {
    let (clock, _mock) = quanta::Clock::mock();
    let bench = read_write::Bench::new();
    let first = bench.run(two_cores(), &clock, 1, 3);
    let second = bench.run(two_cores(), &clock, 1, 3);
    assert_eq!(first, vec![Sample::Latency { nanos: 0, handshakes: 2 }; 3]);
    assert_eq!(second, first);
}

#[test]
fn read_write_measures_with_the_real_clock() {
    let clock = quanta::Clock::new();
    let samples = read_write::Bench::new().run(two_cores(), &clock, 1000, 10);
    assert_eq!(samples.len(), 10);
    for s in &samples {
        assert!(matches!(s, Sample::Latency { handshakes: 2000, .. }));
        assert!(s.nanos() > 0);
    }
}

#[test]
fn message_passing_five_samples_of_ten_messages() {
    let clock = quanta::Clock::new();
    let samples = msg_passing::Bench::new(10).run(two_cores(), &clock, 10, 5);
    assert_eq!(samples.len(), 5);
    for s in &samples {
        assert!(matches!(s, Sample::Latency { handshakes: 10, .. }));
        assert!(s.is_finite());
        assert!(value(s) >= 0.0);
    }
}

#[test]
fn message_passing_on_a_clock_that_stands_still() {
    let (clock, _mock) = quanta::Clock::mock();
    let samples = msg_passing::Bench::with_send_delay(4, 3000).run(two_cores(), &clock, 4, 3);
    // every stamp is 1, the sender's floor, and every receipt is 0 ticks
    // after the reference: nothing is measured and nothing is taken off
    assert_eq!(samples, vec![Sample::Latency { nanos: 0, handshakes: 4 }; 3]);
}

#[test]
fn message_passing_divides_by_the_iterations_of_the_run() {
    let (clock, _mock) = quanta::Clock::mock();
    let samples = msg_passing::Bench::with_send_delay(2, 10).run(two_cores(), &clock, 8, 1);
    assert_eq!(samples, vec![Sample::Latency { nanos: 0, handshakes: 8 }]);
}

#[test]
fn memory_streaming_counts_the_bytes_of_every_pass() {
    let clock = quanta::Clock::new();
    let samples = mem::Bench::new().run(two_cores(), &clock, 3, 4);
    assert_eq!(samples.len(), 4);
    for s in &samples {
        assert!(matches!(s, Sample::Throughput { bytes: 786432, .. }));
        assert!(s.nanos() > 0);
        assert!(s.is_finite());
        assert!(value(s) > 0.0);
    }
}

#[test]
fn memory_streaming_without_elapsed_time_counts_one_nanosecond() {
    let (clock, _mock) = quanta::Clock::mock();
    let samples = mem::Bench::new().run(two_cores(), &clock, 1, 2);
    assert_eq!(samples, vec![Sample::Throughput { bytes: 262144, nanos: 1 }; 2]);
    assert!(samples[0].is_finite());
    assert_eq!(value(&samples[0]), 262144.0 * 1e9 / (1u64 << 30) as f64);
}

#[test]
fn memory_streaming_without_a_pass_is_finite() {
    let (clock, _mock) = quanta::Clock::mock();
    let samples = mem::Bench::new().run(two_cores(), &clock, 0, 3);
    assert_eq!(samples, vec![Sample::Throughput { bytes: 0, nanos: 1 }; 3]);
    assert!(samples.iter().all(|s| s.is_finite()));
}

#[test]
fn memory_constants() {
    assert_eq!(mem::MEM_SIZE, 262144);
    assert_eq!(mem::N_CHUNKS, 4);
    assert_eq!(mem::N_VALUES_PER_CHUNKS * mem::VALUE_SIZE * mem::N_CHUNKS, mem::MEM_SIZE);
    assert_eq!(mem::N_LINES_PER_CHUNKS * mem::VALUES_PER_LINE, mem::N_VALUES_PER_CHUNKS);
    assert_eq!(mem::VALUES_PER_LINE * mem::VALUE_SIZE, 128);
    let _chunk = mem::MemChunk::new();
}

#[test]
fn a_slot_that_holds_a_stamp_gives_it_and_keeps_it() {
    let slot = AtomicU64::new(42);
    assert_eq!(msg_passing::wait_for_non_zero_value(&slot, Ordering::Relaxed).0, Some(42));
    assert_eq!(slot.load(Ordering::Relaxed), 42);
}

#[test]
fn wait_returns_the_value_once_it_is_not_zero() {
    let slot = AtomicU64::new(17);
    assert_eq!(msg_passing::wait_for_non_zero_value(&slot, Ordering::Relaxed).0, Some(17));
    assert_eq!(msg_passing::wait_for_non_zero_value(&slot, Ordering::Acquire).0, Some(17));
}

#[test]
fn wait_sees_a_value_stored_by_another_thread() {
    let slot = AtomicU64::new(0);
    let seen = crossbeam_utils::thread::scope(|s| {
        let waiter =
            s.spawn(|_| msg_passing::wait_for_non_zero_value(&slot, Ordering::Relaxed).0);
        slot.store(5, Ordering::Relaxed);
        waiter.join().unwrap()
    })
    .unwrap();
    assert_eq!(seen, Some(5));
}
