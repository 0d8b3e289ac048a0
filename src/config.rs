//! Benchmark configuration.
use vstd::prelude::*;

verus! {

/// All the options of a benchmark. Durations are in nanoseconds.
#[derive(Debug, Clone, Copy, PartialEq, Eq)]
pub struct BenchmarkConfig {
    /// How long the measured phase should take. `num_samples` takes
    /// precedence: when the work is too slow to fit, fewer samples run.
    pub measurement_time_nanos: u64,
    /// How many bootstrap resamples a comparison draws.
    pub num_resamples: usize,
    /// How many samples to take; at least 1.
    pub num_samples: usize,
    /// How long the warm-up runs.
    pub warm_up_time_nanos: u64,
    /// Whether to store results and compare with the previous run.
    pub dump_results_to_disk: bool,
    /// A hard number of iterations that replaces warm-up and scheduling:
    /// a single sample of exactly this many iterations.
    pub max_iterations: Option<u64>,
}

/// The default configuration.
pub open spec fn default_config() -> BenchmarkConfig {
    BenchmarkConfig {
        measurement_time_nanos: 5_000_000_000,
        num_resamples: 100_000,
        num_samples: 100,
        warm_up_time_nanos: 3_000_000_000,
        dump_results_to_disk: true,
        max_iterations: None,
    }
}

impl Default for BenchmarkConfig {
    /// Five seconds of measurement after three seconds of warm-up, 100
    /// samples, 100 000 resamples, results stored.
    fn default() -> (r: Self)
        ensures
            r == default_config(),
    {
        BenchmarkConfig {
            measurement_time_nanos: 5_000_000_000,
            num_resamples: 100_000,
            num_samples: 100,
            warm_up_time_nanos: 3_000_000_000,
            dump_results_to_disk: true,
            max_iterations: None,
        }
    }
}

} // verus!
