use core_to_core_latency::sample::Sample;
use core_to_core_latency::tensor::{sum_nanos, Measurements, Row};

fn lat(nanos: u64) -> Sample {
    Sample::Latency { nanos, handshakes: 2 }
}

fn cell(nanos: &[u64]) -> Option<Vec<Sample>> {
    Some(nanos.iter().map(|n| lat(*n)).collect())
}

fn lower_triangle() -> Measurements {
    let rows: Vec<Row> = vec![
        vec![None, None, None],
        vec![cell(&[10, 20]), None, None],
        vec![cell(&[5, 5]), cell(&[40, 2]), None],
    ];
    Measurements::from_rows(2, rows).expect("three rows of three pairs")
}

#[test]
fn sum_of_samples() {
    assert_eq!(sum_nanos(&vec![]), 0);
    assert_eq!(sum_nanos(&vec![lat(3), lat(4), Sample::Throughput { bytes: 9, nanos: 5 }]), 12);
    assert_eq!(sum_nanos(&vec![lat(u64::MAX), lat(u64::MAX)]), 2 * (u64::MAX as u128));
}

#[test]
fn a_tensor_is_a_square() {
    assert!(Measurements::from_rows(2, vec![]).is_some());
    assert!(Measurements::from_rows(2, vec![vec![None]]).is_some());
    assert!(Measurements::from_rows(2, vec![vec![None, None]]).is_none());
    assert!(Measurements::from_rows(2, vec![vec![None], vec![None]]).is_none());
    assert!(Measurements::from_rows(2, vec![vec![None, None], vec![None]]).is_none());
}

#[test]
fn a_measured_pair_has_all_its_samples() {
    assert!(Measurements::from_rows(2, vec![vec![cell(&[1, 2])]]).is_some());
    assert!(Measurements::from_rows(2, vec![vec![cell(&[1])]]).is_none());
    assert!(Measurements::from_rows(2, vec![vec![cell(&[1, 2, 3])]]).is_none());
    assert!(Measurements::from_rows(0, vec![vec![cell(&[])]]).is_some());
    assert!(Measurements::from_rows(2, vec![vec![None, None], vec![None, cell(&[1])]]).is_none());
}

#[test]
fn what_was_put_in_is_read_back() {
    let m = lower_triangle();
    assert_eq!(m.n_cores(), 3);
    assert_eq!(m.num_samples(), 2);
    assert_eq!(m.samples(1, 0), Some(&vec![lat(10), lat(20)]));
    assert_eq!(m.samples(2, 1), Some(&vec![lat(40), lat(2)]));
    assert_eq!(m.samples(0, 1), None);
    assert_eq!(m.samples(1, 1), None);
    assert_eq!(m.samples(3, 0), None);
    assert_eq!(m.samples(0, 3), None);
}

#[test]
fn totals_of_pairs() {
    let m = lower_triangle();
    assert_eq!(m.pair_total(1, 0), Some(30));
    assert_eq!(m.pair_total(2, 0), Some(10));
    assert_eq!(m.pair_total(2, 1), Some(42));
    assert_eq!(m.pair_total(0, 0), None);
    assert_eq!(m.pair_total(0, 2), None);
    assert_eq!(m.pair_total(7, 7), None);
}

#[test]
fn smallest_and_largest_pair() {
    let m = lower_triangle();
    assert_eq!(m.min_pair(), Some((2, 0)));
    assert_eq!(m.max_pair(), Some((2, 1)));
}

#[test]
fn of_equal_pairs_the_first_wins() {
    let rows: Vec<Row> = vec![
        vec![None, cell(&[7]), cell(&[9])],
        vec![cell(&[9]), None, cell(&[7])],
        vec![cell(&[8]), cell(&[9]), None],
    ];
    let m = Measurements::from_rows(1, rows).unwrap();
    assert_eq!(m.min_pair(), Some((0, 1)));
    assert_eq!(m.max_pair(), Some((0, 2)));
}

#[test]
fn an_empty_tensor_has_no_extremes() {
    let m = Measurements::from_rows(3, vec![vec![None, None], vec![None, None]]).unwrap();
    assert_eq!(m.min_pair(), None);
    assert_eq!(m.max_pair(), None);
    assert_eq!(m.grand_total(), Some(0));
    assert_eq!(m.measured_pairs(), 0);
    let none = Measurements::from_rows(3, vec![]).unwrap();
    assert_eq!(none.n_cores(), 0);
    assert_eq!(none.min_pair(), None);
    assert_eq!(none.grand_total(), Some(0));
}

#[test]
fn a_pair_without_samples_counts_as_measured_but_has_no_mean() {
    let m = Measurements::from_rows(0, vec![vec![None, cell(&[])], vec![None, None]]).unwrap();
    assert_eq!(m.pair_total(0, 1), Some(0));
    assert_eq!(m.measured_pairs(), 1);
    assert_eq!(m.common_handshakes(), None);
    assert_eq!(m.min_pair(), None);
    assert_eq!(m.max_pair(), None);
}

#[test]
fn latencies_over_one_number_of_handshakes_are_ranked() {
    let m = lower_triangle();
    assert_eq!(m.common_handshakes(), Some(2));
    // the means are 30/4, 10/4 and 42/4
    assert_eq!(m.min_pair(), Some((2, 0)));
    assert_eq!(m.max_pair(), Some((2, 1)));
}

#[test]
fn throughputs_are_not_ranked_by_their_time() {
    let fast = Some(vec![Sample::Throughput { bytes: 1000, nanos: 10 }]);
    let slow = Some(vec![Sample::Throughput { bytes: 1000, nanos: 20 }]);
    let m = Measurements::from_rows(1, vec![vec![None, fast], vec![slow, None]]).unwrap();
    assert_eq!(m.common_handshakes(), None);
    assert_eq!(m.min_pair(), None);
    assert_eq!(m.max_pair(), None);
    assert_eq!(m.pair_total(0, 1), Some(10));
    assert_eq!(m.grand_total(), Some(30));
}

#[test]
fn latencies_over_different_handshakes_are_not_ranked() {
    let two = Some(vec![Sample::Latency { nanos: 10, handshakes: 2 }]);
    let four = Some(vec![Sample::Latency { nanos: 10, handshakes: 4 }]);
    let m = Measurements::from_rows(1, vec![vec![None, two], vec![four, None]]).unwrap();
    assert_eq!(m.common_handshakes(), None);
    assert_eq!(m.min_pair(), None);
    assert_eq!(m.max_pair(), None);
}

#[test]
fn a_later_sample_of_another_kind_stops_the_ranking() {
    let mixed = Some(vec![
        Sample::Latency { nanos: 10, handshakes: 2 },
        Sample::Throughput { bytes: 5, nanos: 10 },
    ]);
    let m = Measurements::from_rows(2, vec![vec![None, cell(&[1, 2])], vec![mixed, None]]).unwrap();
    assert_eq!(m.common_handshakes(), None);
    assert_eq!(m.min_pair(), None);
}

#[test]
fn latencies_over_no_handshake_are_not_ranked() {
    let none = Some(vec![Sample::Latency { nanos: 10, handshakes: 0 }]);
    let m = Measurements::from_rows(1, vec![vec![None, none], vec![None, None]]).unwrap();
    assert_eq!(m.common_handshakes(), None);
    assert_eq!(m.min_pair(), None);
    assert_eq!(m.max_pair(), None);
}

#[test]
fn grand_total_and_count() {
    let m = lower_triangle();
    assert_eq!(m.grand_total(), Some(82));
    assert_eq!(m.measured_pairs(), 3);
    // the mean of all samples: 82 ns over 3 pairs of 2 samples of 2 handshakes
    assert_eq!(82.0 / (3.0 * 2.0 * 2.0), 6.833333333333333);
}

#[test]
fn grand_total_of_the_largest_samples() {
    let rows: Vec<Row> = vec![
        vec![None, cell(&[u64::MAX, u64::MAX])],
        vec![cell(&[u64::MAX, u64::MAX]), None],
    ];
    let m = Measurements::from_rows(2, rows).unwrap();
    assert_eq!(m.grand_total(), Some(4 * (u64::MAX as u128)));
}
