use core_to_core_latency::affinity::{pin_current_thread_to, PIN_LIMIT};
use core_to_core_latency::clock::elapsed_nanos;
use core_to_core_latency::utils::{
    assert_rdtsc_usable, black_box, clock_read_overhead_sum, delay_cycles, is_plausible_read_cost,
    judge_clock, ClockError, TscReport, NUM_ITERS,
};

fn on_a_thread<T: Send>(f: impl FnOnce() -> T + Send) -> T {
    crossbeam_utils::thread::scope(|s| s.spawn(move |_| f()).join().unwrap()).unwrap()
}

#[test]
fn delta_of_a_later_start_is_zero() {
    let (clock, _mock) = quanta::Clock::mock();
    assert_eq!(elapsed_nanos(&clock, 10, 5), 0);
    assert_eq!(elapsed_nanos(&clock, 10, 10), 0);
    assert_eq!(elapsed_nanos(&clock, u64::MAX, 0), 0);
    let real = quanta::Clock::new();
    assert_eq!(elapsed_nanos(&real, 10, 5), 0);
    assert_eq!(elapsed_nanos(&real, u64::MAX, 0), 0);
    assert_eq!(elapsed_nanos(&real, 77, 77), 0);
}

#[test]
fn delta_of_a_mock_clock_is_the_difference() {
    let (clock, _mock) = quanta::Clock::mock();
    assert_eq!(elapsed_nanos(&clock, 5, 10), 5);
    assert_eq!(elapsed_nanos(&clock, 0, u64::MAX), u64::MAX);
}

#[test]
fn the_same_ticks_give_the_same_nanoseconds() {
    let clock = quanta::Clock::new();
    let first = elapsed_nanos(&clock, 1_000, 5_000_000);
    for _ in 0..100 {
        assert_eq!(elapsed_nanos(&clock, 1_000, 5_000_000), first);
    }
    assert!(first > 0);
    let (mock, handle) = quanta::Clock::mock();
    handle.increment(777u64);
    assert_eq!(elapsed_nanos(&mock, 1_000, 5_000_000), 4_999_000);
}

#[test]
fn read_overhead_of_no_reading_is_zero() {
    let clock = quanta::Clock::new();
    assert_eq!(clock_read_overhead_sum(&clock, 0), 0);
}

#[test]
fn read_overhead_repeats_on_a_mock_clock() {
    let (clock, mock) = quanta::Clock::mock();
    mock.increment(1000u64);
    let first = clock_read_overhead_sum(&clock, 500);
    for _ in 0..10 {
        assert_eq!(clock_read_overhead_sum(&clock, 500), first);
    }
    assert_eq!(first, 0);
}

#[test]
fn read_overhead_of_the_real_clock_stays_in_a_band() {
    let clock = quanta::Clock::new();
    let mut least = u64::MAX;
    let mut most = 0;
    for _ in 0..20 {
        let nanos = clock_read_overhead_sum(&clock, 10_000);
        least = least.min(nanos);
        most = most.max(nanos);
    }
    assert!(least > 0);
    // ten thousand readings in less than a tenth of a second each time
    assert!(most < 100_000_000);
}

#[test]
fn plausible_read_costs() {
    // a tenth of a nanosecond per reading
    assert!(is_plausible_read_cost(1000, 10_000));
    assert!(!is_plausible_read_cost(999, 10_000));
    // a thousand nanoseconds per reading
    assert!(is_plausible_read_cost(9_999_999, 10_000));
    assert!(!is_plausible_read_cost(10_000_000, 10_000));
    assert!(is_plausible_read_cost(250_000, 10_000));
    assert!(!is_plausible_read_cost(0, 10_000));
    assert!(!is_plausible_read_cost(u64::MAX, u32::MAX));
    assert!(!is_plausible_read_cost(0, 0));
}

#[test]
fn the_clock_is_judged_by_the_processor_first() {
    assert_eq!(NUM_ITERS, 10_000);
    assert_eq!(judge_clock(TscReport::NoCpuid, 250_000), Err(ClockError::UnsupportedProcessor));
    assert_eq!(judge_clock(TscReport::NoPowerInfo, 250_000), Err(ClockError::NoPowerInfo));
    assert_eq!(judge_clock(TscReport::Variant, 250_000), Err(ClockError::VariantTsc));
    assert_eq!(judge_clock(TscReport::Invariant, 250_000), Ok(()));
    assert_eq!(
        judge_clock(TscReport::Invariant, 999),
        Err(ClockError::ReadCostOutOfRange { total_nanos: 999 })
    );
    assert_eq!(
        judge_clock(TscReport::Invariant, 10_000_000),
        Err(ClockError::ReadCostOutOfRange { total_nanos: 10_000_000 })
    );
}

#[test]
fn a_clock_that_stands_still_is_not_usable() {
    let (clock, _mock) = quanta::Clock::mock();
    assert_eq!(
        assert_rdtsc_usable(&clock, TscReport::Invariant),
        Err(ClockError::ReadCostOutOfRange { total_nanos: 0 })
    );
    assert_eq!(
        assert_rdtsc_usable(&clock, TscReport::NoCpuid),
        Err(ClockError::UnsupportedProcessor)
    );
    assert_eq!(assert_rdtsc_usable(&clock, TscReport::NoPowerInfo), Err(ClockError::NoPowerInfo));
    assert_eq!(assert_rdtsc_usable(&clock, TscReport::Variant), Err(ClockError::VariantTsc));
}

#[test]
fn the_real_clock_is_judged_by_its_cost() {
    let clock = quanta::Clock::new();
    match assert_rdtsc_usable(&clock, TscReport::Invariant) {
        Ok(total_nanos) => assert!(is_plausible_read_cost(total_nanos, NUM_ITERS)),
        Err(ClockError::ReadCostOutOfRange { total_nanos }) => {
            assert!(!is_plausible_read_cost(total_nanos, NUM_ITERS))
        }
        Err(other) => panic!("the processor's report was in order: {:?}", other),
    }
}

#[test]
fn black_box_hands_its_argument_back() {
    assert_eq!(black_box(5u64), 5);
    assert_eq!(black_box("text"), "text");
    let v = vec![1, 2, 3];
    assert_eq!(black_box(v.clone()), v);
}

#[test]
fn delay_returns() {
    delay_cycles(0);
    delay_cycles(10_000);
}

#[test]
fn pinning_is_tried_below_the_limit_only() {
    assert_eq!(PIN_LIMIT, 64);
    let ids = core_affinity::get_core_ids().expect("the system lists its hardware threads");
    let id = ids[0].id;
    assert!(id < PIN_LIMIT);
    let attempts = on_a_thread(move || {
        (
            pin_current_thread_to(id),
            pin_current_thread_to(64),
            pin_current_thread_to(1 << 20),
            pin_current_thread_to(usize::MAX),
        )
    });
    assert_eq!(attempts, (true, false, false, false));
}

#[test]
fn a_pinned_thread_runs_on_its_hardware_thread() {
    let ids = core_affinity::get_core_ids().expect("the system lists its hardware threads");
    let id = ids[ids.len() - 1].id;
    let after = on_a_thread(move || {
        pin_current_thread_to(id);
        core_affinity::get_core_ids().expect("the system lists its hardware threads")
    });
    assert_eq!(after.len(), 1);
    assert_eq!(after[0].id, id);
}
