use random_io_bench::executor::ReadResult;
use random_io_bench::stats::{analyze_results, calculate_statistics, summarize_sorted};

#[test]
fn known_sample_uses_truncated_indices() {
    let sample: Vec<u64> = (1..=10).map(|us| us * 1000).collect();
    let s = calculate_statistics(sample);
    assert_eq!(s.count, 10);
    assert_eq!(s.min, 1000);
    assert_eq!(s.max, 10000);
    assert_eq!(s.median, 6000);
    assert_eq!(s.p90, 10000);
    assert_eq!(s.p95, 10000);
    assert_eq!(s.p99, 10000);
    assert_eq!(s.avg, 5500);
}

#[test]
fn unsorted_sample_is_sorted_first() {
    let sample: Vec<u64> = vec![7000, 3000, 10000, 1000, 5000, 9000, 2000, 8000, 4000, 6000];
    let s = calculate_statistics(sample);
    assert_eq!(s.min, 1000);
    assert_eq!(s.max, 10000);
    assert_eq!(s.median, 6000);
    assert_eq!(s.p90, 10000);
    assert_eq!(s.avg, 5500);
}

#[test]
fn hundred_element_percentiles() {
    let sample: Vec<u64> = (1..=100).rev().collect();
    let s = calculate_statistics(sample);
    assert_eq!(s.count, 100);
    assert_eq!(s.median, 51);
    assert_eq!(s.p90, 91);
    assert_eq!(s.p95, 96);
    assert_eq!(s.p99, 100);
    assert_eq!(s.avg, 50);
    assert_eq!(s.min, 1);
    assert_eq!(s.max, 100);
}

#[test]
fn twenty_element_p95_is_last() {
    let sample: Vec<u64> = (0..20).collect();
    let s = calculate_statistics(sample);
    assert_eq!(s.p95, 19);
    assert_eq!(s.p90, 18);
    assert_eq!(s.median, 10);
}

#[test]
fn single_element_sample() {
    let s = calculate_statistics(vec![42]);
    assert_eq!(s.count, 1);
    for v in [s.avg, s.median, s.p90, s.p95, s.p99, s.min, s.max] {
        assert_eq!(v, 42);
    }
}

#[test]
fn empty_sample_is_all_zero() {
    let s = calculate_statistics(Vec::new());
    assert_eq!(s.count, 0);
    for v in [s.avg, s.median, s.p90, s.p95, s.p99, s.min, s.max] {
        assert_eq!(v, 0);
    }
}

#[test]
fn average_of_huge_latencies_does_not_overflow() {
    let s = calculate_statistics(vec![u64::MAX, u64::MAX, u64::MAX - 2]);
    assert_eq!(s.avg, u64::MAX - 1);
    assert_eq!(s.max, u64::MAX);
}

#[test]
fn summarize_sorted_sample() {
    let s = summarize_sorted(&vec![2, 4, 6, 8]);
    assert_eq!(s.count, 4);
    assert_eq!(s.median, 6);
    assert_eq!(s.p90, 8);
    assert_eq!(s.avg, 5);
}

#[test]
fn report_splits_first_and_repeated() {
    let results = vec![
        ReadResult { latency_nanos: 100, is_first_read: true },
        ReadResult { latency_nanos: 10, is_first_read: false },
        ReadResult { latency_nanos: 300, is_first_read: true },
        ReadResult { latency_nanos: 30, is_first_read: false },
        ReadResult { latency_nanos: 20, is_first_read: false },
    ];
    let r = analyze_results(&results);
    assert_eq!(r.all.count, 5);
    assert_eq!(r.all.max, 300);
    let first = r.first_reads.unwrap();
    assert_eq!(first.count, 2);
    assert_eq!(first.avg, 200);
    assert_eq!(first.median, 300);
    let repeated = r.repeated_reads.unwrap();
    assert_eq!(repeated.count, 3);
    assert_eq!(repeated.min, 10);
    assert_eq!(repeated.median, 20);
}

#[test]
fn report_omits_empty_subsets() {
    let results = vec![ReadResult { latency_nanos: 5, is_first_read: true }];
    let r = analyze_results(&results);
    assert_eq!(r.all.count, 1);
    assert!(r.first_reads.is_some());
    assert!(r.repeated_reads.is_none());
    let none = analyze_results(&Vec::new());
    assert_eq!(none.all.count, 0);
    assert!(none.first_reads.is_none());
    assert!(none.repeated_reads.is_none());
}
