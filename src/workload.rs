//! Run parameters and the split of the operation budget across workers.

use vstd::prelude::*;

verus! {

/// Immutable parameters of one benchmark run. Sizes are in bytes.
#[derive(Clone, Copy, Debug, PartialEq, Eq, Structural)]
pub struct BenchmarkConfig {
    pub num_files: usize,
    pub file_size: usize,
    pub block_size: usize,
    pub num_operations: usize,
    pub num_threads: usize,
    pub seed: u64,
    pub use_mmap: bool,
}

/// Number of whole blocks in one file; zero when the block size is zero or
/// larger than the file.
pub open spec fn blocks_per_file_spec(file_size: usize, block_size: usize) -> nat {
    if block_size == 0 {
        0
    } else {
        (file_size / block_size) as nat
    }
}

/// The number of workers a run uses: the configured count, clamped to at
/// least one and at most the number of operations (one when there are none).
pub open spec fn effective_threads_spec(num_threads: usize, num_operations: usize) -> nat {
    if num_threads == 0 || num_operations == 0 {
        1
    } else if num_threads <= num_operations {
        num_threads as nat
    } else {
        num_operations as nat
    }
}

/// Share of worker `w` among `workers`: the even part, plus one for each of
/// the first `total % workers` workers.
pub open spec fn share_spec(total: nat, workers: nat, w: nat) -> nat {
    total / workers + if w < total % workers {
        1nat
    } else {
        0nat
    }
}

/// The shares of every worker of a run, by worker index.
pub open spec fn worker_shares_spec(total: usize, num_threads: usize) -> Seq<usize> {
    let n = effective_threads_spec(num_threads, total);
    Seq::new(n, |w: int| share_spec(total as nat, n, w as nat) as usize)
}

/// Sum of a sequence of counts.
pub open spec fn sum_counts(s: Seq<usize>) -> int
    decreases s.len(),
{
    if s.len() == 0 {
        0
    } else {
        sum_counts(s.drop_last()) + s.last()
    }
}

impl BenchmarkConfig {
    /// Number of whole blocks in each file.
    pub fn blocks_per_file(&self) -> (r: usize)
        ensures
            r == blocks_per_file_spec(self.file_size, self.block_size),
    {
        if self.block_size == 0 {
            0
        } else {
            self.file_size / self.block_size
        }
    }

    /// Number of workers this run uses.
    pub fn effective_threads(&self) -> (r: usize)
        ensures
            r == effective_threads_spec(self.num_threads, self.num_operations),
            r >= 1,
    {
        effective_threads(self.num_threads, self.num_operations)
    }
}

/// Clamps a thread count to `max(1, min(num_threads, num_operations))`.
pub fn effective_threads(num_threads: usize, num_operations: usize) -> (r: usize)
    ensures
        r == effective_threads_spec(num_threads, num_operations),
        r >= 1,
{
    if num_threads == 0 || num_operations == 0 {
        1
    } else if num_threads <= num_operations {
        num_threads
    } else {
        num_operations
    }
}

/// Operations owed to worker `worker` when `total` operations are split
/// across `workers` workers.
pub fn operations_for_worker(total: usize, workers: usize, worker: usize) -> (r: usize)
    requires
        workers > 0,
        worker < workers,
    ensures
        r == share_spec(total as nat, workers as nat, worker as nat),
{
    let base = total / workers;
    let remainder = total % workers;
    proof {
        assert(base * workers + remainder == total) by (nonlinear_arith)
            requires
                workers > 0,
                base == total / workers,
                remainder == total % workers;
        assert(base < total || base == 0 || workers == 1) by (nonlinear_arith)
            requires
                workers > 0,
                base * workers + remainder == total,
                remainder >= 0;
    }
    if worker < remainder {
        base + 1
    } else {
        base
    }
}

/// The shares of all workers of a run, by worker index.
pub fn worker_shares(num_operations: usize, num_threads: usize) -> (r: Vec<usize>)
    ensures
        r@ == worker_shares_spec(num_operations, num_threads),
{
    let n = effective_threads(num_threads, num_operations);
    let mut shares: Vec<usize> = Vec::new();
    let mut w: usize = 0;
    while w < n
        invariant
            n == effective_threads_spec(num_threads, num_operations),
            w <= n,
            shares@ =~= worker_shares_spec(num_operations, num_threads).subrange(0, w as int),
        decreases n - w,
    {
        let s = operations_for_worker(num_operations, n, w);
        shares.push(s);
        w = w + 1;
    }
    shares
}

proof fn lemma_share_fits(total: nat, workers: nat, w: nat)
    requires
        workers > 0,
    ensures
        share_spec(total, workers, w) <= total,
        total / workers <= share_spec(total, workers, w) <= total / workers + 1,
{
    let q = total / workers;
    let r = total % workers;
    assert(q * workers + r == total) by (nonlinear_arith)
        requires
            workers > 0,
            q == total / workers,
            r == total % workers;
    assert(q * workers >= q) by (nonlinear_arith)
        requires
            workers > 0,
            q >= 0;
}

proof fn lemma_prefix_sum(total: nat, workers: nat, k: nat)
    requires
        workers > 0,
        total <= usize::MAX,
        k <= workers,
    ensures
        sum_counts(Seq::new(k, |w: int| share_spec(total, workers, w as nat) as usize)) == (total
            / workers) * k + if k < total % workers {
            k
        } else {
            total % workers
        },
    decreases k,
{
    let s = Seq::new(k, |w: int| share_spec(total, workers, w as nat) as usize);
    if k > 0 {
        let q = total / workers;
        assert(s.drop_last() =~= Seq::new(
            (k - 1) as nat,
            |w: int| share_spec(total, workers, w as nat) as usize,
        ));
        lemma_prefix_sum(total, workers, (k - 1) as nat);
        lemma_share_fits(total, workers, (k - 1) as nat);
        assert(q * k == q * (k - 1) + q) by (nonlinear_arith)
            requires
                k > 0;
        assert(s.last() == share_spec(total, workers, (k - 1) as nat));
        assert(sum_counts(s) == sum_counts(s.drop_last()) + s.last());
        let r = total % workers;
        if k - 1 < r {
            assert(s.last() == q + 1);
        } else {
            assert(s.last() == q);
        }
    } else {
        assert(s.len() == 0);
        assert((total / workers) * k == 0) by (nonlinear_arith)
            requires
                k == 0;
    }
}

/// Splitting `num_operations` across the workers loses and invents no
/// operation: the shares add up to `num_operations` exactly, and no two
/// shares differ by more than one.
pub proof fn lemma_shares_partition(num_operations: usize, num_threads: usize)
    ensures
        sum_counts(worker_shares_spec(num_operations, num_threads)) == num_operations,
        forall|i: int, j: int|
            0 <= i < worker_shares_spec(num_operations, num_threads).len() && 0 <= j
                < worker_shares_spec(num_operations, num_threads).len() ==> worker_shares_spec(
                num_operations,
                num_threads,
            )[i] <= worker_shares_spec(num_operations, num_threads)[j] + 1,
{
    let n = effective_threads_spec(num_threads, num_operations);
    let t = num_operations as nat;
    lemma_prefix_sum(t, n, n);
    assert forall|w: nat| #![trigger share_spec(t, n, w)] w < n implies share_spec(t, n, w) <= t
        && t / n <= share_spec(t, n, w) <= t / n + 1 by {
        lemma_share_fits(t, n, w);
    }
    let q = t / n;
    let r = t % n;
    assert(q * n + r == t) by (nonlinear_arith)
        requires
            n > 0,
            q == t / n,
            r == t % n;
    assert(q * n == n * q) by (nonlinear_arith);
    assert(q <= t) by (nonlinear_arith)
        requires
            n > 0,
            q * n + r == t,
            r >= 0;
}

} // verus!
