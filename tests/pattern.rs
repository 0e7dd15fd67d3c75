use random_io_bench::pattern::{access_pattern, plan_workers, worker_seed};
use random_io_bench::workload::BenchmarkConfig;

fn config() -> BenchmarkConfig {
    BenchmarkConfig {
        num_files: 4,
        file_size: 1024 * 1024,
        block_size: 4096,
        num_operations: 1000,
        num_threads: 4,
        seed: 42,
        use_mmap: false,
    }
}

#[test]
fn same_seed_same_pattern() {
    let a = access_pattern(&config(), 2, 250);
    let b = access_pattern(&config(), 2, 250);
    assert_eq!(a, b);
    assert_eq!(a.len(), 250);
}

#[test]
fn read_mode_does_not_change_pattern() {
    let mut mapped = config();
    mapped.use_mmap = true;
    mapped.num_threads = 9;
    assert_eq!(access_pattern(&config(), 1, 100), access_pattern(&mapped, 1, 100));
}

#[test]
fn accesses_lie_inside_files() {
    let c = config();
    for w in 0..4 {
        for a in access_pattern(&c, w, 500) {
            assert!(a.file_index < 4);
            assert!(a.block_index < 256);
            assert_eq!(a.offset, a.block_index * 4096);
            assert!(a.offset + 4096 <= c.file_size);
        }
    }
}

#[test]
fn draws_are_spread_over_files_and_blocks() {
    let p = access_pattern(&config(), 0, 1000);
    let mut files = [false; 4];
    for a in &p {
        files[a.file_index] = true;
    }
    assert!(files.iter().all(|&seen| seen));
    assert!(p.iter().any(|a| a.block_index != p[0].block_index));
}

#[test]
fn workers_get_different_streams() {
    let c = config();
    assert_ne!(access_pattern(&c, 0, 50), access_pattern(&c, 1, 50));
}

#[test]
fn shorter_pattern_is_a_prefix() {
    let c = config();
    let long = access_pattern(&c, 3, 40);
    let short = access_pattern(&c, 3, 10);
    assert_eq!(&long[..10], &short[..]);
}

#[test]
fn block_larger_than_file_gives_no_reads() {
    let mut c = config();
    c.block_size = 2 * 1024 * 1024;
    assert!(access_pattern(&c, 0, 100).is_empty());
    c.block_size = 0;
    assert!(access_pattern(&c, 0, 100).is_empty());
}

#[test]
fn no_files_gives_no_reads() {
    let mut c = config();
    c.num_files = 0;
    assert!(access_pattern(&c, 0, 100).is_empty());
}

#[test]
fn worker_seed_adds_and_wraps() {
    assert_eq!(worker_seed(42, 3), 45);
    assert_eq!(worker_seed(u64::MAX, 1), 0);
    assert_eq!(worker_seed(u64::MAX - 1, 5), 3);
}

#[test]
fn plan_follows_shares() {
    let mut c = config();
    c.num_operations = 10;
    let plans = plan_workers(&c);
    let lens: Vec<usize> = plans.iter().map(|p| p.len()).collect();
    assert_eq!(lens, vec![3, 3, 2, 2]);
    assert_eq!(plans[1], access_pattern(&c, 1, 3));
}
