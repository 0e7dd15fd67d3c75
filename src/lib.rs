//! Random-access read benchmark engine: work partitioning, reproducible
//! access patterns, first-touch tracking, bounded block reads and latency
//! statistics.

pub mod executor;
pub mod pattern;
pub mod stats;
pub mod tracker;
pub mod workload;
