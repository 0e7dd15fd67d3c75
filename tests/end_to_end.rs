use random_io_bench::executor::{merge_results, perform_mmap_read, record_read};
use random_io_bench::pattern::plan_workers;
use random_io_bench::stats::{analyze_results, ResultsReport};
use random_io_bench::tracker::FirstTouchTracker;
use random_io_bench::workload::BenchmarkConfig;
use std::time::Instant;

fn run_mapped(config: &BenchmarkConfig, regions: &[Vec<u8>]) -> (ResultsReport, usize) {
    let mut tracker = FirstTouchTracker::new();
    let mut buffers = Vec::new();
    let mut distinct = std::collections::HashSet::new();
    for plan in plan_workers(config) {
        let mut buffer = Vec::new();
        for a in plan {
            distinct.insert((a.file_index, a.block_index));
            let first = tracker.mark_and_check(a.file_index, a.block_index);
            let start = Instant::now();
            let outcome = perform_mmap_read(&regions[a.file_index], a.offset, config.block_size);
            let nanos = start.elapsed().as_nanos() as u64;
            record_read(&mut buffer, nanos, first, &outcome);
        }
        buffers.push(buffer);
    }
    (analyze_results(&merge_results(buffers)), distinct.len())
}

#[test]
fn four_files_thousand_operations() {
    let config = BenchmarkConfig {
        num_files: 4,
        file_size: 1024 * 1024,
        block_size: 4096,
        num_operations: 1000,
        num_threads: 4,
        seed: 42,
        use_mmap: true,
    };
    let regions: Vec<Vec<u8>> = (0..4).map(|_| vec![0xABu8; 1024 * 1024]).collect();
    let (first_run, distinct) = run_mapped(&config, &regions);
    let (second_run, _) = run_mapped(&config, &regions);
    for report in [first_run, second_run] {
        assert_eq!(report.all.count, 1000);
        let firsts = report.first_reads.map_or(0, |s| s.count);
        let repeats = report.repeated_reads.map_or(0, |s| s.count);
        assert_eq!(firsts + repeats, 1000);
        assert!(firsts <= 4 * 1024 * 1024 / 4096);
        assert_eq!(firsts, distinct);
    }
    assert_eq!(
        first_run.first_reads.map(|s| s.count),
        second_run.first_reads.map(|s| s.count)
    );
}

#[test]
fn short_regions_drop_failed_reads() {
    let config = BenchmarkConfig {
        num_files: 2,
        file_size: 64 * 1024,
        block_size: 4096,
        num_operations: 200,
        num_threads: 3,
        seed: 7,
        use_mmap: true,
    };
    let regions = vec![vec![0u8; 64 * 1024], vec![0u8; 32 * 1024]];
    let mut expected = 0;
    for plan in plan_workers(&config) {
        for a in plan {
            if a.file_index == 0 || a.offset + 4096 <= 32 * 1024 {
                expected += 1;
            }
        }
    }
    let (report, _) = run_mapped(&config, &regions);
    assert!(expected < 200);
    assert_eq!(report.all.count, expected);
}
