//! Latency statistics over a sample of per-operation latencies, and the
//! split of a run's results into all / first-read / repeated-read reports.

use vstd::prelude::*;
use vstd::relations::{sorted_by, total_ordering};
use vstd::seq_lib::lemma_sorted_unique;
use crate::executor::ReadResult;

verus! {

/// Summary of a latency sample. Every duration is in nanoseconds.
#[derive(Clone, Copy, Debug, PartialEq, Eq, Structural)]
pub struct LatencyStatistics {
    pub count: usize,
    pub avg: u64,
    pub median: u64,
    pub p90: u64,
    pub p95: u64,
    pub p99: u64,
    pub min: u64,
    pub max: u64,
}

/// The order in which a sample is sorted.
pub open spec fn latency_leq() -> spec_fn(u64, u64) -> bool {
    |a: u64, b: u64| a <= b
}

/// Sum of a sample, as a mathematical integer.
pub open spec fn sum_of(s: Seq<u64>) -> int
    decreases s.len(),
{
    if s.len() == 0 {
        0
    } else {
        sum_of(s.drop_last()) + s.last()
    }
}

/// Index of the percentile `per_cent` in a sorted sample of `count`
/// elements: `floor(count * per_cent / 100)`, truncated, not rounded up.
pub open spec fn percentile_index(count: nat, per_cent: nat) -> int {
    (count * per_cent / 100) as int
}

/// The summary of an empty sample.
pub open spec fn zero_statistics() -> LatencyStatistics {
    LatencyStatistics { count: 0, avg: 0, median: 0, p90: 0, p95: 0, p99: 0, min: 0, max: 0 }
}

/// The summary of a nonempty sample that is already sorted ascending.
pub open spec fn statistics_of_sorted(s: Seq<u64>) -> LatencyStatistics {
    LatencyStatistics {
        count: s.len() as usize,
        avg: (sum_of(s) / s.len() as int) as u64,
        median: s[(s.len() / 2) as int],
        p90: s[percentile_index(s.len(), 90)],
        p95: s[percentile_index(s.len(), 95)],
        p99: s[percentile_index(s.len(), 99)],
        min: s[0],
        max: s[s.len() - 1],
    }
}

/// The summary of any sample: all zero when it is empty, else the summary of
/// the sample sorted ascending.
pub open spec fn statistics_spec(sample: Seq<u64>) -> LatencyStatistics {
    if sample.len() == 0 {
        zero_statistics()
    } else {
        statistics_of_sorted(sample.sort_by(latency_leq()))
    }
}

proof fn lemma_latency_leq_total()
    ensures
        total_ordering(latency_leq()),
{
}

proof fn lemma_sum_bounds(s: Seq<u64>)
    ensures
        0 <= sum_of(s) <= s.len() * 0xffff_ffff_ffff_ffffint,
    decreases s.len(),
{
    if s.len() > 0 {
        lemma_sum_bounds(s.drop_last());
    }
}

/// Relies on std's `slice::sort`: afterwards the vector is in ascending
/// order and holds the same elements.
#[verifier::external_body]
fn sort_ascending(v: &mut Vec<u64>)
    ensures
        sorted_by(final(v)@, latency_leq()),
        final(v)@.to_multiset() == old(v)@.to_multiset(),
{
    v.sort();
}

/// Summarizes a nonempty sample that is sorted ascending.
pub fn summarize_sorted(sorted: &Vec<u64>) -> (r: LatencyStatistics)
    requires
        sorted@.len() > 0,
        sorted_by(sorted@, latency_leq()),
    ensures
        r == statistics_of_sorted(sorted@),
{
    let count = sorted.len();
    let mut sum: u128 = 0;
    let mut i: usize = 0;
    while i < count
        invariant
            count == sorted@.len(),
            i <= count,
            sum == sum_of(sorted@.subrange(0, i as int)),
        decreases count - i,
    {
        proof {
            let s = sorted@.subrange(0, i as int + 1);
            assert(s.drop_last() =~= sorted@.subrange(0, i as int));
            lemma_sum_bounds(sorted@.subrange(0, i as int));
            assert(i * 0xffff_ffff_ffff_ffffint + 0xffff_ffff_ffff_ffffint < 0x1_0000_0000_0000_0000_0000_0000_0000_0000int)
                by (nonlinear_arith)
                requires
                    i < 0x1_0000_0000_0000_0000int;
        }
        sum = sum + sorted[i] as u128;
        i = i + 1;
    }
    proof {
        assert(sorted@.subrange(0, count as int) =~= sorted@);
        lemma_sum_bounds(sorted@);
        let n = count as int;
        let t = sum as int;
        assert(t / n <= 0xffff_ffff_ffff_ffffint) by (nonlinear_arith)
            requires
                n > 0,
                0 <= t <= n * 0xffff_ffff_ffff_ffffint;
    }
    let avg = (sum / count as u128) as u64;
    let i90 = (count as u128 * 90 / 100) as usize;
    let i95 = (count as u128 * 95 / 100) as usize;
    let i99 = (count as u128 * 99 / 100) as usize;
    proof {
        let n = count as int;
        assert(n * 90 / 100 < n && n * 95 / 100 < n && n * 99 / 100 < n) by (nonlinear_arith)
            requires
                n > 0;
    }
    LatencyStatistics {
        count,
        avg,
        median: sorted[count / 2],
        p90: sorted[i90],
        p95: sorted[i95],
        p99: sorted[i99],
        min: sorted[0],
        max: sorted[count - 1],
    }
}

/// Computes the summary of a latency sample: sorted ascending, the mean
/// truncated to whole nanoseconds, the upper median, and percentiles by
/// truncated index. An empty sample gives the all-zero summary.
pub fn calculate_statistics(latencies: Vec<u64>) -> (r: LatencyStatistics)
    ensures
        r == statistics_spec(latencies@),
{
    if latencies.len() == 0 {
        return LatencyStatistics {
            count: 0,
            avg: 0,
            median: 0,
            p90: 0,
            p95: 0,
            p99: 0,
            min: 0,
            max: 0,
        };
    }
    let mut sorted = latencies;
    sort_ascending(&mut sorted);
    proof {
        broadcast use vstd::seq_lib::group_to_multiset_ensures;

        assert(sorted@.len() == sorted@.to_multiset().len());
        lemma_latency_leq_total();
        latencies@.lemma_sort_by_ensures(latency_leq());
        lemma_sorted_unique(sorted@, latencies@.sort_by(latency_leq()), latency_leq());
    }
    summarize_sorted(&sorted)
}

/// The three reports of a run: over all reads, over first reads only and
/// over repeated reads only. A subset with no read has no report.
#[derive(Clone, Copy, Debug, PartialEq, Eq, Structural)]
pub struct ResultsReport {
    pub all: LatencyStatistics,
    pub first_reads: Option<LatencyStatistics>,
    pub repeated_reads: Option<LatencyStatistics>,
}

/// Latencies of all results, in order.
pub open spec fn latencies_of(results: Seq<ReadResult>) -> Seq<u64> {
    results.map_values(|r: ReadResult| r.latency_nanos)
}

/// Latencies of the results whose first-read flag is `first`, in order.
pub open spec fn latencies_where(results: Seq<ReadResult>, first: bool) -> Seq<u64>
    decreases results.len(),
{
    if results.len() == 0 {
        Seq::empty()
    } else if results.last().is_first_read == first {
        latencies_where(results.drop_last(), first).push(results.last().latency_nanos)
    } else {
        latencies_where(results.drop_last(), first)
    }
}

/// The report over a subset: none when the subset is empty.
pub open spec fn subset_report(sample: Seq<u64>) -> Option<LatencyStatistics> {
    if sample.len() == 0 {
        None
    } else {
        Some(statistics_spec(sample))
    }
}

/// Summarizes a run's results: over all of them, and, where there are any,
/// over the first reads and over the repeated reads.
pub fn analyze_results(results: &Vec<ReadResult>) -> (r: ResultsReport)
    ensures
        r.all == statistics_spec(latencies_of(results@)),
        r.first_reads == subset_report(latencies_where(results@, true)),
        r.repeated_reads == subset_report(latencies_where(results@, false)),
{
    let mut all: Vec<u64> = Vec::new();
    let mut first: Vec<u64> = Vec::new();
    let mut repeated: Vec<u64> = Vec::new();
    let mut i: usize = 0;
    while i < results.len()
        invariant
            i <= results@.len(),
            all@ =~= latencies_of(results@.subrange(0, i as int)),
            first@ == latencies_where(results@.subrange(0, i as int), true),
            repeated@ == latencies_where(results@.subrange(0, i as int), false),
        decreases results@.len() - i,
    {
        let r = results[i];
        proof {
            assert(results@.subrange(0, i as int + 1).drop_last() =~= results@.subrange(0, i as int));
        }
        all.push(r.latency_nanos);
        if r.is_first_read {
            first.push(r.latency_nanos);
        } else {
            repeated.push(r.latency_nanos);
        }
        i = i + 1;
    }
    assert(results@.subrange(0, results@.len() as int) =~= results@);
    let first_reads = if first.len() == 0 {
        None
    } else {
        Some(calculate_statistics(first))
    };
    let repeated_reads = if repeated.len() == 0 {
        None
    } else {
        Some(calculate_statistics(repeated))
    };
    ResultsReport { all: calculate_statistics(all), first_reads, repeated_reads }
}

} // verus!
