//! Reproducible per-worker access patterns: which block of which file each
//! operation of a worker reads.

use rand::{Rng, SeedableRng};
use vstd::prelude::*;
use crate::workload::{BenchmarkConfig, blocks_per_file_spec, worker_shares, worker_shares_spec};

verus! {

/// The numbers that a `StdRng` seeded by `seed` hands out when it is asked,
/// in turn, for a number below each of `bounds`.
pub uninterp spec fn std_rng_draws(seed: u64, bounds: Seq<u64>) -> Seq<u64>;

/// Relies on rand's `StdRng::seed_from_u64` and `Rng::gen_range`: one
/// generator is seeded with `seed` and asked for a uniform number in
/// `0..bounds[i]` for each `i` in order. The generator is deterministic, so
/// the numbers depend on the seed and the bounds alone; each lies below its
/// bound (`gen_range` panics on an empty range, which `requires` rules out).
#[verifier::external_body]
fn seeded_draws(seed: u64, bounds: &Vec<u64>) -> (r: Vec<u64>)
    requires
        forall|i: int| 0 <= i < bounds@.len() ==> bounds@[i] > 0,
    ensures
        r@ == std_rng_draws(seed, bounds@),
        r@.len() == bounds@.len(),
        forall|i: int| 0 <= i < r@.len() ==> r@[i] < bounds@[i],
{
    let mut rng = rand::rngs::StdRng::seed_from_u64(seed);
    bounds.iter().map(|&b| rng.gen_range(0..b)).collect()
}

/// One read of a pattern: the file, the block within it, and the block's
/// byte offset.
#[derive(Clone, Copy, Debug, PartialEq, Eq, Structural)]
pub struct Access {
    pub file_index: usize,
    pub block_index: usize,
    pub offset: usize,
}

/// The seed of worker `worker`: the run's seed plus the worker index,
/// wrapping around at 2^64.
pub open spec fn worker_seed_spec(seed: u64, worker: usize) -> u64 {
    ((seed as int + worker as int) % 0x1_0000_0000_0000_0000int) as u64
}

/// Bounds of the draws of `count` operations: a file index below
/// `num_files`, then a block index below `blocks`, for each operation.
pub open spec fn pattern_bounds(num_files: usize, blocks: nat, count: nat) -> Seq<u64> {
    Seq::new(2 * count, |i: int| if i % 2 == 0 { num_files as u64 } else { blocks as u64 })
}

/// The first `count` reads of worker `worker`. There are none when the run
/// has no file, or no whole block in a file.
pub open spec fn access_pattern_spec(config: BenchmarkConfig, worker: usize, count: nat) -> Seq<
    Access,
> {
    let blocks = blocks_per_file_spec(config.file_size, config.block_size);
    if config.num_files == 0 || blocks == 0 {
        Seq::empty()
    } else {
        let d = std_rng_draws(
            worker_seed_spec(config.seed, worker),
            pattern_bounds(config.num_files, blocks, count),
        );
        Seq::new(
            count,
            |i: int|
                Access {
                    file_index: d[2 * i] as usize,
                    block_index: d[2 * i + 1] as usize,
                    offset: (d[2 * i + 1] * config.block_size) as usize,
                },
        )
    }
}

/// Seed of a worker's generator: the run's seed plus the worker index,
/// wrapping around at 2^64.
pub fn worker_seed(seed: u64, worker: usize) -> (r: u64)
    ensures
        r == worker_seed_spec(seed, worker),
{
    let w = worker as u64;
    if seed <= u64::MAX - w {
        seed + w
    } else {
        seed - (u64::MAX - w) - 1
    }
}

proof fn lemma_block_fits(block: int, blocks: int, file_size: int, block_size: int)
    requires
        block_size > 0,
        blocks == file_size / block_size,
        0 <= block < blocks,
        file_size >= 0,
    ensures
        0 <= block * block_size,
        block * block_size + block_size <= file_size,
{
    assert(blocks * block_size <= file_size) by (nonlinear_arith)
        requires
            block_size > 0,
            blocks == file_size / block_size,
            file_size >= 0;
    assert(block * block_size + block_size <= blocks * block_size) by (nonlinear_arith)
        requires
            block < blocks,
            block_size > 0;
    assert(0 <= block * block_size) by (nonlinear_arith)
        requires
            0 <= block,
            block_size > 0;
}

/// The reads of worker `worker` for `count` operations: the worker's
/// generator is seeded with `worker_seed(config.seed, worker)`, and each
/// operation draws a file index below `num_files`, then a block index below
/// the number of whole blocks per file. Every read lies wholly inside its
/// file.
pub fn access_pattern(config: &BenchmarkConfig, worker: usize, count: usize) -> (r: Vec<Access>)
    ensures
        r@ == access_pattern_spec(*config, worker, count as nat),
        forall|i: int|
            0 <= i < r@.len() ==> {
                &&& r@[i].file_index < config.num_files
                &&& r@[i].block_index < blocks_per_file_spec(config.file_size, config.block_size)
                &&& r@[i].offset == r@[i].block_index * config.block_size
                &&& r@[i].offset + config.block_size <= config.file_size
            },
{
    let blocks = config.blocks_per_file();
    if config.num_files == 0 || blocks == 0 {
        let empty: Vec<Access> = Vec::new();
        proof {
            assert(empty@ =~= access_pattern_spec(*config, worker, count as nat));
        }
        return empty;
    }
    let ghost spec_bounds = pattern_bounds(config.num_files, blocks as nat, count as nat);
    let mut bounds: Vec<u64> = Vec::new();
    let mut i: usize = 0;
    while i < count
        invariant
            i <= count,
            config.num_files > 0,
            blocks > 0,
            spec_bounds == pattern_bounds(config.num_files, blocks as nat, count as nat),
            bounds@ =~= spec_bounds.subrange(0, 2 * i),
        decreases count - i,
    {
        bounds.push(config.num_files as u64);
        bounds.push(blocks as u64);
        i = i + 1;
    }
    assert(bounds@ =~= spec_bounds);
    let seed = worker_seed(config.seed, worker);
    let draws = seeded_draws(seed, &bounds);
    let ghost d = draws@;
    let n = draws.len();
    let mut pattern: Vec<Access> = Vec::new();
    let mut k: usize = 0;
    let mut j: usize = 0;
    while k < count
        invariant
            k <= count,
            j == 2 * k,
            draws@ == d,
            n == d.len(),
            d.len() == 2 * count,
            d == std_rng_draws(seed, spec_bounds),
            seed == worker_seed_spec(config.seed, worker),
            forall|m: int| 0 <= m < d.len() ==> d[m] < spec_bounds[m],
            spec_bounds == pattern_bounds(config.num_files, blocks as nat, count as nat),
            config.num_files > 0,
            blocks > 0,
            blocks == blocks_per_file_spec(config.file_size, config.block_size),
            pattern@ =~= access_pattern_spec(*config, worker, count as nat).subrange(0, k as int),
            forall|m: int|
                0 <= m < pattern@.len() ==> {
                    &&& pattern@[m].file_index < config.num_files
                    &&& pattern@[m].block_index < blocks
                    &&& pattern@[m].offset == pattern@[m].block_index * config.block_size
                    &&& pattern@[m].offset + config.block_size <= config.file_size
                },
        decreases count - k,
    {
        assert(d[j as int] < config.num_files as u64);
        assert(d[j as int + 1] < blocks as u64);
        let file_index = draws[j] as usize;
        let block_index = draws[j + 1] as usize;
        proof {
            lemma_block_fits(
                block_index as int,
                blocks as int,
                config.file_size as int,
                config.block_size as int,
            );
        }
        let offset = block_index * config.block_size;
        pattern.push(Access { file_index, block_index, offset });
        k = k + 1;
        j = j + 2;
    }
    pattern
}

/// The reads of every worker of a run, by worker index: worker `w` gets its
/// share of the operation budget, drawn from its own seeded generator.
pub fn plan_workers(config: &BenchmarkConfig) -> (r: Vec<Vec<Access>>)
    ensures
        r@.len() == worker_shares_spec(config.num_operations, config.num_threads).len(),
        forall|w: int|
            0 <= w < r@.len() ==> #[trigger] r@[w]@ == access_pattern_spec(
                *config,
                w as usize,
                worker_shares_spec(config.num_operations, config.num_threads)[w] as nat,
            ),
{
    let shares = worker_shares(config.num_operations, config.num_threads);
    let mut plans: Vec<Vec<Access>> = Vec::new();
    let mut w: usize = 0;
    while w < shares.len()
        invariant
            shares@ == worker_shares_spec(config.num_operations, config.num_threads),
            w <= shares@.len(),
            plans@.len() == w,
            forall|v: int|
                0 <= v < w ==> #[trigger] plans@[v]@ == access_pattern_spec(
                    *config,
                    v as usize,
                    shares@[v] as nat,
                ),
        decreases shares@.len() - w,
    {
        let plan = access_pattern(config, w, shares[w]);
        plans.push(plan);
        w = w + 1;
    }
    plans
}

/// A worker's pattern is reproducible: it depends only on the run's seed,
/// the number of files, the file and block sizes, the worker index and the
/// number of operations. Two runs that agree on those, whatever their thread
/// count, operation budget or read mode, give the worker the same reads.
pub proof fn lemma_pattern_reproducible(
    a: BenchmarkConfig,
    b: BenchmarkConfig,
    worker: usize,
    count: nat,
)
    requires
        a.seed == b.seed,
        a.num_files == b.num_files,
        a.file_size == b.file_size,
        a.block_size == b.block_size,
    ensures
        access_pattern_spec(a, worker, count) == access_pattern_spec(b, worker, count),
{
}

} // verus!
