use std::cmp::Ordering;
use std::collections::hash_map::Entry;
use std::collections::HashMap;
use std::time::{Duration, Instant};
use tiny_bench::benching::{run, run_warm_up, run_with_setup};
use tiny_bench::compare::{classify, p_value_count};
use tiny_bench::random::Rng;
use tiny_bench::resample::{draw_resample, pool, resample, resample_with};
use tiny_bench::schedule::calculate_iterations;
use tiny_bench::{
    bench_with_configuration, bench_with_configuration_labeled, bench_with_setup_configuration,
    black_box, run_timed, run_timed_times, BenchmarkConfig, Comparison, SamplingData, TimingData,
};

fn short_config() -> BenchmarkConfig {
    BenchmarkConfig {
        measurement_time_nanos: 10_000_000,
        warm_up_time_nanos: 5_000_000,
        ..BenchmarkConfig::default()
    }
}

#[test]
fn benching_benches() {
    let closure = || {
        let mut sum = 0;
        for _ in 0..100 {
            sum += black_box(1);
        }
        assert_eq!(black_box(100), sum);
    };
    let cfg = short_config();
    bench_with_configuration(&cfg, closure);
}

#[test]
fn mod_benches() {
    let closure = || {
        let mut sum = 0;
        for _ in 0..100 {
            sum += black_box(1);
        }
        assert_eq!(black_box(100), sum);
    };
    let cfg = short_config();
    bench_with_configuration(&cfg, closure);
}

#[test]
fn warms_up() {
    let mut wu_closure = || {
        let start = Instant::now();
        while start.elapsed() < Duration::from_millis(1) {}
    };
    let results = run_warm_up(&mut wu_closure, 10_000_000);
    assert!(9 <= results.iterations);
}

#[test]
fn warm_up_with_no_budget_runs_one_batch() {
    let mut calls = 0u32;
    let results = run_warm_up(&mut || calls += 1, 0);
    assert_eq!(1, results.iterations);
    assert_eq!(1, calls);
}

#[test]
fn test_lcg() {
    let mut rng = Rng::new();
    let mut distr = HashMap::new();
    let test = 10_000;
    let range = 10;
    for _ in 0..test {
        let v = rng.next() % range;
        match distr.entry(v) {
            Entry::Vacant(v) => {
                v.insert(1);
            }
            Entry::Occupied(mut o) => {
                *o.get_mut() += 1;
            }
        }
    }
    println!("{distr:?}");
}

#[test]
fn lcg_steps() {
    let mut rng = Rng::from_seed(0);
    assert_eq!(11, rng.next());
    assert_eq!(277_363_943_098, rng.next());
    let mut rng = Rng::from_seed(u64::MAX);
    assert!(rng.next() < (1 << 48));
}

#[test]
fn schedule_solves_for_step() {
    assert_eq!(vec![7, 14, 21, 28, 35], calculate_iterations(100, 1, 5, 10_000));
}

#[test]
fn schedule_uses_fractional_cost() {
    assert_eq!(vec![200], calculate_iterations(3, 2, 1, 300));
}

#[test]
fn schedule_clamps_cost_to_one_nanosecond() {
    assert_eq!(calculate_iterations(1, 1, 3, 600), calculate_iterations(1, 10, 3, 600));
    assert_eq!(vec![100, 200, 300], calculate_iterations(0, 10, 3, 600));
}

#[test]
fn schedule_compresses_samples() {
    let s = calculate_iterations(1, 1, 100, 1000);
    assert_eq!(44, s.len());
    assert_eq!(2, s[0]);
    assert_eq!(88, s[43]);
    assert_eq!(vec![1], calculate_iterations(1, 1, 100, 0));
    assert!(calculate_iterations(1, 1, 0, 1000).is_empty());
}

#[test]
fn schedule_fits_large_targets() {
    let s = calculate_iterations(1, 1, 3, u64::MAX);
    assert_eq!(3, s.len());
    assert!(s[2] == 3 * s[0]);
}

#[test]
fn runner_keeps_schedule() {
    let mut calls = 0u64;
    let data = run(vec![1, 2, 3], || calls += 1);
    assert_eq!(vec![1, 2, 3], data.samples);
    assert_eq!(3, data.times.len());
    assert_eq!(6, calls);
    let empty = run(vec![], || ());
    assert_eq!(SamplingData { samples: vec![], times: vec![] }, empty);
}

#[test]
fn setup_runner_keeps_schedule() {
    let mut made = 0u64;
    let mut used = 0u64;
    let data = run_with_setup(vec![4, 1], || { made += 1; made }, |x: u64| used += x);
    assert_eq!(vec![4, 1], data.samples);
    assert_eq!(2, data.times.len());
    assert_eq!(5, made);
    assert_eq!(15, used);
}

#[test]
fn max_iterations_bypasses_schedule() {
    let cfg = BenchmarkConfig {
        max_iterations: Some(7),
        ..short_config()
    };
    let m = bench_with_configuration_labeled("bad/label", &cfg, || black_box(1));
    assert_eq!("anonymous", m.label);
    assert_eq!(vec![7], m.data.samples);
    assert_eq!(7, m.total_iterations);
    assert!(m.warm_up.iterations >= 1);
}

#[test]
fn measurement_totals_match_samples() {
    let m = bench_with_configuration_labeled("good", &short_config(), || black_box(3) * 2);
    assert_eq!("good", m.label);
    assert_eq!(m.data.samples.len(), m.data.times.len());
    let sum: u128 = m.data.samples.iter().map(|&s| s as u128).sum();
    assert_eq!(sum, m.total_iterations);
    let m = bench_with_setup_configuration(&short_config(), || vec![3u8; 4], |v: Vec<u8>| v.len());
    assert_eq!("anonymous", m.label);
    assert_eq!(m.data.samples.len(), m.data.times.len());
}

#[test]
fn total_elapsed_sums_times() {
    let data = SamplingData { samples: vec![1, 2, 3], times: vec![10, 10, 12] };
    assert_eq!(32, data.total_elapsed());
    let big = SamplingData { samples: vec![1, 1], times: vec![u128::MAX, 1] };
    assert_eq!(u128::MAX, big.total_elapsed());
}

#[test]
fn pools_in_order() {
    assert_eq!(vec![1, 2, 3], pool(&vec![1], &vec![2, 3]));
}

#[test]
fn draws_with_replacement() {
    let pooled = vec![10, 20, 30];
    let mut rng = Rng::from_seed(0);
    assert_eq!((vec![30], vec![20, 20]), draw_resample(&pooled, 1, &mut rng));
    assert_eq!((vec![10], vec![30, 10]), draw_resample(&pooled, 1, &mut rng));
}

#[test]
fn resamples_statistic() {
    let mut rng = Rng::from_seed(0);
    let stat = |x: &Vec<u32>, y: &Vec<u32>| {
        x.iter().sum::<u32>() * 1000 + y.iter().sum::<u32>()
    };
    assert_eq!(vec![30_040, 10_040], resample_with(&vec![10], &vec![20, 30], 2, &mut rng, stat));
    let r = resample(&vec![1.5f64, 2.5], &vec![3.5], 5, |x: &Vec<f64>, _y: &Vec<f64>| x.len());
    assert_eq!(vec![2; 5], r);
}

#[test]
fn p_value_takes_smaller_tail() {
    assert_eq!(6, p_value_count(3, 10));
    assert_eq!(4, p_value_count(8, 10));
    assert_eq!(10, p_value_count(5, 10));
    assert_eq!(0, p_value_count(0, 0));
}

#[test]
fn classifies_changes() {
    assert_eq!(Comparison::Worse, classify(Ordering::Greater, true, true));
    assert_eq!(Comparison::Better, classify(Ordering::Less, true, true));
    assert_eq!(Comparison::Same, classify(Ordering::Equal, true, true));
    assert_eq!(Comparison::Same, classify(Ordering::Greater, false, true));
    assert_eq!(Comparison::Same, classify(Ordering::Less, true, false));
}

#[test]
fn times_runs() {
    let mut calls = 0;
    let _ = run_timed(|| calls += 1);
    assert_eq!(1, calls);
    let none = run_timed_times(0, || ());
    assert_eq!(TimingData { min_nanos: u128::MAX, max_nanos: 0, elapsed: 0, iterations: 0 }, none);
    let some = run_timed_times(5, || black_box(2) + 2);
    assert_eq!(5, some.iterations);
    assert!(some.min_nanos <= some.max_nanos && some.max_nanos <= some.elapsed);
}

#[test]
fn records_timing() {
    let mut d = TimingData::empty();
    d.record(5);
    d.record(3);
    d.record(9);
    assert_eq!(TimingData { min_nanos: 3, max_nanos: 9, elapsed: 17, iterations: 3 }, d);
}
