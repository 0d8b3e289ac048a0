//! A tiny benchmarking library: warm-up calibration, iteration scheduling,
//! sampled measurement, resampling for significance, and a compact binary
//! format for stored results.
pub mod benching;
pub mod bytes;
pub mod clock;
pub mod compare;
pub mod config;
pub mod error;
pub mod label;
pub mod random;
pub mod resample;
pub mod schedule;
pub mod ser;
pub mod timing;

pub use benching::{
    bench, bench_labeled, bench_with_configuration, bench_with_configuration_labeled,
    bench_with_setup, bench_with_setup_configuration, bench_with_setup_configuration_labeled,
    bench_with_setup_labeled, Measurement, SamplingData, WarmupResults,
};
pub use compare::Comparison;
pub use config::BenchmarkConfig;
pub use error::Error;
pub use std::hint::black_box;
pub use timing::{run_timed, run_timed_times, TimingData};
