use core_to_core_latency::sample::{
    add_receipt, add_ticks, count_to_usize, one_way_latency, one_way_ticks, read_stamp,
    relative_ticks, repeat_byte,
    round_trip_latency, send_stamp, throughput, Sample, GB, NANOS_PER_SEC,
};

#[test]
fn round_trip_is_two_handshakes() {
    let s = round_trip_latency(84_000, 1000);
    assert_eq!(s, Sample::Latency { nanos: 84_000, handshakes: 2000 });
    assert_eq!(s.ratio(), (84_000, 2000));
    // 84000 / 1000 / 2
    assert_eq!(84_000.0 / 2000.0, 42.0);
    assert_eq!(s.nanos(), 84_000);
}

#[test]
fn round_trip_at_the_largest_count() {
    let s = round_trip_latency(u64::MAX, u32::MAX);
    assert_eq!(s, Sample::Latency { nanos: u64::MAX, handshakes: 8_589_934_590 });
}

#[test]
fn latency_over_no_handshake_is_not_finite() {
    assert!(!round_trip_latency(5, 0).is_finite());
    assert!(round_trip_latency(0, 1).is_finite());
}

#[test]
fn relative_ticks_saturate_at_zero() {
    assert_eq!(relative_ticks(100, 40), 60);
    assert_eq!(relative_ticks(40, 100), 0);
    assert_eq!(relative_ticks(7, 7), 0);
}

#[test]
fn a_stamp_is_never_zero() {
    assert_eq!(send_stamp(100, 40), 60);
    assert_eq!(send_stamp(40, 40), 1);
    assert_eq!(send_stamp(3, 40), 1);
    assert_eq!(send_stamp(41, 40), 1);
    assert_eq!(send_stamp(u64::MAX, 0), u64::MAX);
}

#[test]
fn one_way_ticks_saturate_at_zero() {
    assert_eq!(one_way_ticks(150, 100), 50);
    assert_eq!(one_way_ticks(100, 150), 0);
}

#[test]
fn the_sum_of_a_batch_stops_at_the_top() {
    assert_eq!(add_ticks(5, 6), 11);
    assert_eq!(add_ticks(u64::MAX - 1, 1), u64::MAX);
    assert_eq!(add_ticks(u64::MAX - 1, 2), u64::MAX);
    assert_eq!(add_ticks(u64::MAX, u64::MAX), u64::MAX);
}

#[test]
fn a_slot_with_a_message_adds_its_ticks() {
    assert_eq!(add_receipt(100, Some(40), 90), 150);
    assert_eq!(add_receipt(0, Some(1), 1), 0);
    // the receiver's clock lies behind the stamp
    assert_eq!(add_receipt(100, Some(90), 40), 100);
    assert_eq!(add_receipt(u64::MAX - 3, Some(10), 20), u64::MAX);
}

#[test]
fn a_slot_without_a_message_adds_nothing() {
    assert_eq!(add_receipt(100, None, 90), 100);
    assert_eq!(add_receipt(0, None, u64::MAX), 0);
}

#[test]
fn the_cost_of_reading_the_clock_is_taken_off() {
    assert_eq!(one_way_latency(1000, 200, 10), Sample::Latency { nanos: 800, handshakes: 10 });
    assert_eq!(one_way_latency(1000, 200, 10).ratio(), (800, 10));
}

#[test]
fn the_correction_never_goes_below_zero() {
    assert_eq!(one_way_latency(200, 1000, 10), Sample::Latency { nanos: 0, handshakes: 10 });
    assert_eq!(one_way_latency(200, 200, 10), Sample::Latency { nanos: 0, handshakes: 10 });
    assert_eq!(one_way_latency(0, u64::MAX, 1), Sample::Latency { nanos: 0, handshakes: 1 });
}

#[test]
fn throughput_in_gigabytes_per_second() {
    let s = throughput(262144, 4096, 1_000_000_000);
    // 2^30 bytes in one second
    assert_eq!(s, Sample::Throughput { bytes: 1 << 30, nanos: 1_000_000_000 });
    let (numerator, denominator) = s.ratio();
    assert_eq!(numerator, (1u128 << 30) * 1_000_000_000);
    assert_eq!(denominator, 1_000_000_000u128 << 30);
    assert_eq!(numerator as f64 / denominator as f64, 1.0);
    assert!(s.is_finite());
    assert_eq!(s.nanos(), 1_000_000_000);
}

#[test]
fn throughput_at_the_largest_counts() {
    let s = throughput(u32::MAX, u32::MAX, u64::MAX);
    assert_eq!(s, Sample::Throughput { bytes: 18446744065119617025, nanos: u64::MAX });
    let (numerator, denominator) = s.ratio();
    assert_eq!(numerator, 18446744065119617025u128 * 1_000_000_000);
    assert_eq!(denominator, (u64::MAX as u128) << 30);
}

#[test]
fn throughput_in_no_time_counts_one_nanosecond() {
    let s = throughput(262144, 1, 0);
    assert_eq!(s, Sample::Throughput { bytes: 262144, nanos: 1 });
    assert!(s.is_finite());
    assert_eq!(throughput(262144, 1, 1), s);
    assert_eq!(throughput(262144, 1, 2), Sample::Throughput { bytes: 262144, nanos: 2 });
}

#[test]
fn throughput_of_no_pass_is_zero() {
    let s = throughput(262144, 0, 0);
    assert_eq!(s, Sample::Throughput { bytes: 0, nanos: 1 });
    assert!(s.is_finite());
    assert_eq!(s.ratio().0, 0);
}

#[test]
fn a_reading_of_zero_is_no_stamp() {
    assert_eq!(read_stamp(0), None);
    assert_eq!(read_stamp(1), Some(1));
    assert_eq!(read_stamp(42), Some(42));
    assert_eq!(read_stamp(u64::MAX), Some(u64::MAX));
}

#[test]
fn units() {
    assert_eq!(GB, 1 << 30);
    assert_eq!(NANOS_PER_SEC, 1_000_000_000);
}

#[test]
fn a_byte_repeated_over_a_word() {
    assert_eq!(repeat_byte(0), 0);
    assert_eq!(repeat_byte(1), 0x0101_0101_0101_0101);
    assert_eq!(repeat_byte(0xab), 0xabab_abab_abab_abab);
    assert_eq!(repeat_byte(0xff), u64::MAX);
}

#[test]
fn a_count_as_a_length() {
    assert_eq!(count_to_usize(0), 0);
    assert_eq!(count_to_usize(u32::MAX), 4294967295);
}
