//! Benchmark configuration and deterministic load profiles.
use vstd::prelude::*;
use crate::env::fresh_id;

verus! {

/// Configures benchmarks.
pub struct BenchmarkEngine;

/// A benchmark run's configuration.
#[derive(Debug, Clone)]
pub struct BenchmarkConfig {
    pub benchmark_id: u128,
    pub benchmark_type: BenchmarkType,
    pub target_throughput: u64,
    pub duration_secs: u64,
    pub concurrency: u32,
    pub dataset_size: u64,
}

/// What a benchmark measures.
#[derive(Debug, Clone, Copy, PartialEq, Eq, Structural)]
pub enum BenchmarkType {
    ReplayThroughput,
    SyncThroughput,
    FederationScale,
    DeterministicReplayLoad,
    EventStorm,
    PostgresSaturation,
    QueuePressure,
    CrdtCompaction,
    ReplayLatency,
    FederationRoutingPressure,
    EdgeRecovery,
}

/// Generates deterministic load.
pub struct DeterministicLoadGenerator;

/// A deterministic load profile.
#[derive(Debug)]
pub struct LoadProfile {
    pub profile_id: u128,
    pub target_ops_per_sec: u64,
    pub burst_size: u32,
    pub burst_interval_ms: u64,
    pub payload_size_bytes: u64,
    pub deterministic_seed: u64,
}

/// Profiles replays.
pub struct ReplayProfiler;

/// Detects bottlenecks in benchmark results.
pub struct BottleneckDetector;

/// Assesses queue pressure.
pub struct QueuePressureEngine;

impl BenchmarkEngine {
    /// A new engine.
    pub fn new() -> (r: Self) {
        BenchmarkEngine
    }

    /// A benchmark of `benchmark_type` at `throughput` operations per second for `duration`
    /// seconds, with ten workers and a dataset of one operation per target throughput unit
    /// and second.
    pub fn create_config(benchmark_type: BenchmarkType, throughput: u64, duration: u64) -> (r: BenchmarkConfig)
        requires
            throughput * duration <= u64::MAX,
        ensures
            r.benchmark_type == benchmark_type,
            r.target_throughput == throughput,
            r.duration_secs == duration,
            r.concurrency == 10,
            r.dataset_size == throughput * duration,
    {
        BenchmarkConfig {
            benchmark_id: fresh_id(),
            benchmark_type,
            target_throughput: throughput,
            duration_secs: duration,
            concurrency: 10,
            dataset_size: throughput * duration,
        }
    }
}

/// The burst size of a profile: a tenth of the rate, at least one, kept to its low 32 bits.
pub open spec fn burst_size_for(ops_per_sec: u64) -> u32 {
    (if ops_per_sec / 10 >= 1 { ops_per_sec / 10 } else { 1 }) as u32
}

impl DeterministicLoadGenerator {
    /// A new generator.
    pub fn new() -> (r: Self) {
        DeterministicLoadGenerator
    }

    /// A profile at `ops_per_sec` with seed `seed`, bursts every 100 ms and 1 KiB payloads.
    pub fn create_profile(ops_per_sec: u64, seed: u64) -> (r: LoadProfile)
        ensures
            r.target_ops_per_sec == ops_per_sec,
            r.burst_size == burst_size_for(ops_per_sec),
            r.burst_interval_ms == 100,
            r.payload_size_bytes == 1024,
            r.deterministic_seed == seed,
    {
        let tenth = ops_per_sec / 10;
        let burst: u64 = if tenth >= 1 { tenth } else { 1 };
        LoadProfile {
            profile_id: fresh_id(),
            target_ops_per_sec: ops_per_sec,
            burst_size: burst as u32,
            burst_interval_ms: 100,
            payload_size_bytes: 1024,
            deterministic_seed: seed,
        }
    }
}

impl ReplayProfiler {
    /// A new profiler.
    pub fn new() -> (r: Self) {
        ReplayProfiler
    }
}

impl BottleneckDetector {
    /// A new detector.
    pub fn new() -> (r: Self) {
        BottleneckDetector
    }
}

impl QueuePressureEngine {
    /// A new engine.
    pub fn new() -> (r: Self) {
        QueuePressureEngine
    }
}

impl Default for BenchmarkEngine {
    /// The same as `BenchmarkEngine::new()`.
    fn default() -> (r: Self)
    {
        Self::new()
    }
}

impl Default for DeterministicLoadGenerator {
    /// The same as `DeterministicLoadGenerator::new()`.
    fn default() -> (r: Self)
    {
        Self::new()
    }
}

impl Default for ReplayProfiler {
    /// The same as `ReplayProfiler::new()`.
    fn default() -> (r: Self)
    {
        Self::new()
    }
}

impl Default for BottleneckDetector {
    /// The same as `BottleneckDetector::new()`.
    fn default() -> (r: Self)
    {
        Self::new()
    }
}

impl Default for QueuePressureEngine {
    /// The same as `QueuePressureEngine::new()`.
    fn default() -> (r: Self)
    {
        Self::new()
    }
}

} // verus!
