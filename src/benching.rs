//! Warm-up, sampling and the benchmark entry points.
use vstd::prelude::*;
use std::time::Instant;
use crate::config::{default_config, BenchmarkConfig};
use crate::label::{fallback_to_anonymous_on_invalid_label, label_is_valid, ANONYMOUS};
use crate::schedule::{calculate_iterations, is_schedule};

verus! {

/// The measurements of one benchmark: for each sample, how many iterations
/// ran and how many nanoseconds the whole sample took.
#[derive(Clone, Debug, PartialEq, Eq)]
pub struct SamplingData {
    /// Iterations per sample, in the order the samples ran.
    pub samples: Vec<u64>,
    /// Elapsed nanoseconds per sample, index-aligned with `samples`.
    pub times: Vec<u128>,
}

/// The sum of the entries of `s`.
pub open spec fn times_sum(s: Seq<u128>) -> nat
    decreases s.len(),
{
    if s.len() == 0 {
        0
    } else {
        (times_sum(s.drop_last()) + s.last()) as nat
    }
}

impl SamplingData {
    /// Each sample has both an iteration count and a time.
    pub open spec fn wf(&self) -> bool {
        self.samples@.len() == self.times@.len()
    }

    /// The time of all samples together, saturating at `u128::MAX`.
    pub fn total_elapsed(&self) -> (r: u128)
        ensures
            r == if times_sum(self.times@) > u128::MAX {
                u128::MAX as nat
            } else {
                times_sum(self.times@)
            },
    {
        let mut total: u128 = 0;
        let mut k: usize = 0;
        while k < self.times.len()
            invariant
                k <= self.times@.len(),
                total == if times_sum(self.times@.subrange(0, k as int)) > u128::MAX {
                    u128::MAX as nat
                } else {
                    times_sum(self.times@.subrange(0, k as int))
                },
            decreases self.times@.len() - k,
        {
            assert(self.times@.subrange(0, k + 1).drop_last() =~= self.times@.subrange(0, k as int));
            total = total.saturating_add(self.times[k]);
            k = k + 1;
        }
        assert(self.times@.subrange(0, k as int) =~= self.times@);
        total
    }
}

/// What the warm-up found: how many iterations ran in how many nanoseconds.
#[derive(Debug, Clone, Copy, PartialEq, Eq)]
pub struct WarmupResults {
    pub iterations: u128,
    pub elapsed: u128,
}

/// The warm-up runs batches of 1, 2, 4, ... iterations. Before a batch of
/// `batch` iterations, `batch - 1` have run; once the doubling wraps to 0,
/// all `2^64 - 1` iterations of the batches up to `2^63` have run.
spec fn warm_up_inv(iterations: u128, batch: u64) -> bool {
    ||| batch != 0 && iterations + 1 == batch && batch & ((batch - 1) as u64) == 0
    ||| batch == 0 && iterations == u64::MAX
}

/// The doubling batches leave `iterations + 1` a power of two.
proof fn lemma_whole_batches(iterations: u128, batch: u64)
    requires
        warm_up_inv(iterations, batch),
    ensures
        iterations & ((iterations + 1) as u128) == 0,
{
    if batch != 0 {
        let x = (batch - 1) as u64;
        assert(x as u128 == iterations);
        assert(((x + 1) as u64) & x == 0 && x < 0xffff_ffff_ffff_ffffu64 ==> (x as u128) & ((x
            as u128 + 1) as u128) == 0) by (bit_vector);
    } else {
        assert(0xffff_ffff_ffff_ffffu128 & 0x1_0000_0000_0000_0000u128 == 0) by (bit_vector);
    }
}

/// Advances the warm-up past one batch that took `nanos`: a batch is charged at
/// least one nanosecond, so the warm-up always ends.
fn record_batch(wu: &mut WarmupResults, batch: &mut u64, nanos: u128)
    requires
        warm_up_inv(old(wu).iterations, *old(batch)),
    ensures
        warm_up_inv(final(wu).iterations, *final(batch)),
        final(wu).iterations == old(wu).iterations + *old(batch),
        final(wu).elapsed == if old(wu).elapsed + nanos + (if nanos == 0 { 1int } else { 0 }) > u128::MAX {
            u128::MAX as int
        } else {
            old(wu).elapsed + nanos + (if nanos == 0 { 1int } else { 0 })
        },
        *final(batch) == vstd::wrapping::u64_specs::wrapping_mul(*old(batch), 2),
{
    let b = *batch;
    let charged: u128 = if nanos == 0 { 1 } else { nanos };
    wu.elapsed = wu.elapsed.saturating_add(charged);
    wu.iterations = wu.iterations + b as u128;
    *batch = b.wrapping_mul(2);
    proof {
        if b != 0 {
            if b < 0x8000_0000_0000_0000u64 {
                assert(b & ((b - 1) as u64) == 0 && b != 0 && b < 0x8000_0000_0000_0000u64 ==> ((b
                    * 2) as u64) & ((((b * 2) as u64) - 1) as u64) == 0) by (bit_vector);
                assert(*batch == b * 2);
            } else {
                assert(b & ((b - 1) as u64) == 0 && b != 0 && b >= 0x8000_0000_0000_0000u64 ==> b
                    == 0x8000_0000_0000_0000u64) by (bit_vector);
                assert(*batch == 0);
            }
        }
    }
}

/// Runs the closure in batches of doubling size until the batches together
/// took at least `warm_up_nanos`; at least one batch always runs.
pub fn run_warm_up<T, F: FnMut() -> T>(closure: &mut F, warm_up_nanos: u64) -> (r: WarmupResults)
    requires
        call_requires(*old(closure), ()),
    ensures
        1 <= r.iterations <= u64::MAX,
        r.iterations & ((r.iterations + 1) as u128) == 0,
        warm_up_nanos == 0 ==> r.iterations == 1,
        r.elapsed >= warm_up_nanos,
        call_requires(*final(closure), ()),
{
    let mut wu = WarmupResults { iterations: 0, elapsed: 0 };
    let mut batch: u64 = 1;
    assert(1u64 & ((1u64 - 1) as u64) == 0) by (bit_vector);
    loop
        invariant
            call_requires(*closure, ()),
            warm_up_inv(wu.iterations, batch),
            wu.elapsed < warm_up_nanos || wu.iterations == 0,
            warm_up_nanos == 0 ==> wu.iterations == 0,
        decreases (warm_up_nanos as int) - (wu.elapsed as int) + (if wu.iterations == 0 { 1int } else { 0 }),
    {
        let start = Instant::now();
        let mut i: u64 = 0;
        while i < batch
            invariant
                call_requires(*closure, ()),
            decreases batch - i,
        {
            closure();
            i = i + 1;
        }
        let nanos = start.elapsed().as_nanos();
        record_batch(&mut wu, &mut batch, nanos);
        if wu.elapsed >= warm_up_nanos as u128 {
            proof {
                lemma_whole_batches(wu.iterations, batch);
            }
            return wu;
        }
    }
}

/// Like `run_warm_up`, for work that takes an input: each iteration calls
/// `setup` and hands its output to `closure`, and both are timed.
pub fn run_warm_up_with_setup<T, R, F: FnMut(R) -> T, S: FnMut() -> R>(
    setup: &mut S,
    closure: &mut F,
    warm_up_nanos: u64,
) -> (r: WarmupResults)
    requires
        call_requires(*old(setup), ()),
        forall|x: R| call_requires(*old(closure), (x,)),
    ensures
        1 <= r.iterations <= u64::MAX,
        r.iterations & ((r.iterations + 1) as u128) == 0,
        warm_up_nanos == 0 ==> r.iterations == 1,
        r.elapsed >= warm_up_nanos,
        call_requires(*final(setup), ()),
        forall|x: R| call_requires(*final(closure), (x,)),
{
    let mut wu = WarmupResults { iterations: 0, elapsed: 0 };
    let mut batch: u64 = 1;
    assert(1u64 & ((1u64 - 1) as u64) == 0) by (bit_vector);
    loop
        invariant
            call_requires(*setup, ()),
            forall|x: R| call_requires(*closure, (x,)),
            warm_up_inv(wu.iterations, batch),
            wu.elapsed < warm_up_nanos || wu.iterations == 0,
            warm_up_nanos == 0 ==> wu.iterations == 0,
        decreases (warm_up_nanos as int) - (wu.elapsed as int) + (if wu.iterations == 0 { 1int } else { 0 }),
    {
        let start = Instant::now();
        let mut i: u64 = 0;
        while i < batch
            invariant
                call_requires(*setup, ()),
                forall|x: R| call_requires(*closure, (x,)),
            decreases batch - i,
        {
            let input = setup();
            closure(input);
            i = i + 1;
        }
        let nanos = start.elapsed().as_nanos();
        record_batch(&mut wu, &mut batch, nanos);
        if wu.elapsed >= warm_up_nanos as u128 {
            proof {
                lemma_whole_batches(wu.iterations, batch);
            }
            return wu;
        }
    }
}

/// Runs one sample per entry of `sample_sizes`: that many calls of `closure`
/// back to back, timed together. Each result passes through `black_box`.
pub fn run<T, F: FnMut() -> T>(sample_sizes: Vec<u64>, mut closure: F) -> (r: SamplingData)
    requires
        call_requires(closure, ()),
    ensures
        r.samples@ == sample_sizes@,
        r.wf(),
{
    let mut times: Vec<u128> = Vec::new();
    let mut k: usize = 0;
    while k < sample_sizes.len()
        invariant
            call_requires(closure, ()),
            k <= sample_sizes@.len(),
            times@.len() == k,
        decreases sample_sizes@.len() - k,
    {
        let it_count = sample_sizes[k];
        let start = Instant::now();
        let mut i: u64 = 0;
        while i < it_count
            invariant
                call_requires(closure, ()),
            decreases it_count - i,
        {
            crate::black_box(closure());
            i = i + 1;
        }
        times.push(start.elapsed().as_nanos());
        k = k + 1;
    }
    SamplingData { samples: sample_sizes, times }
}

/// Runs one sample per entry of `sample_sizes`, where each iteration first
/// calls `setup` untimed and then times only `closure` on its output; a
/// sample's time is the sum over its iterations (saturating). Inputs and
/// outputs pass through `black_box`.
pub fn run_with_setup<T, R, F: FnMut(R) -> T, S: FnMut() -> R>(
    sample_sizes: Vec<u64>,
    mut setup: S,
    mut closure: F,
) -> (r: SamplingData)
    requires
        call_requires(setup, ()),
        forall|x: R| call_requires(closure, (x,)),
    ensures
        r.samples@ == sample_sizes@,
        r.wf(),
{
    let mut times: Vec<u128> = Vec::new();
    let mut k: usize = 0;
    while k < sample_sizes.len()
        invariant
            call_requires(setup, ()),
            forall|x: R| call_requires(closure, (x,)),
            k <= sample_sizes@.len(),
            times@.len() == k,
        decreases sample_sizes@.len() - k,
    {
        let it_count = sample_sizes[k];
        let mut elapsed: u128 = 0;
        let mut i: u64 = 0;
        while i < it_count
            invariant
                call_requires(setup, ()),
                forall|x: R| call_requires(closure, (x,)),
            decreases it_count - i,
        {
            let input = setup();
            let start = Instant::now();
            crate::black_box(closure(crate::black_box(input)));
            elapsed = elapsed.saturating_add(start.elapsed().as_nanos());
            i = i + 1;
        }
        times.push(elapsed);
        k = k + 1;
    }
    SamplingData { samples: sample_sizes, times }
}

/// The sum of the entries of `s`.
pub open spec fn seq_sum(s: Seq<u64>) -> nat
    decreases s.len(),
{
    if s.len() == 0 {
        0
    } else {
        (seq_sum(s.drop_last()) + s.last()) as nat
    }
}

/// `s` is the iteration plan for `cfg` after the warm-up `wu`: the single
/// entry `max_iterations` when that is set, else the schedule.
pub open spec fn is_plan(s: Seq<u64>, cfg: BenchmarkConfig, wu: WarmupResults) -> bool {
    match cfg.max_iterations {
        Some(m) => s == seq![m],
        None => is_schedule(
            s,
            wu.elapsed as nat,
            wu.iterations as nat,
            cfg.num_samples as nat,
            cfg.measurement_time_nanos as nat,
        ),
    }
}

/// The iteration counts to run and their total.
fn calculate_iters_and_total_iters(cfg: &BenchmarkConfig, wu: WarmupResults) -> (r: (
    Vec<u64>,
    u128,
))
    requires
        wu.iterations <= u64::MAX,
    ensures
        is_plan(r.0@, *cfg, wu),
        r.1 == seq_sum(r.0@),
{
    match cfg.max_iterations {
        Some(max_it) => {
            let mut v: Vec<u64> = Vec::new();
            v.push(max_it);
            assert(v@ =~= seq![max_it]);
            assert(v@.drop_last() =~= Seq::<u64>::empty());
            assert(seq_sum(Seq::<u64>::empty()) == 0);
            (v, max_it as u128)
        },
        None => {
            let iters = calculate_iterations(
                wu.elapsed,
                wu.iterations as u64,
                cfg.num_samples as u64,
                cfg.measurement_time_nanos,
            );
            let mut total_iters: u128 = 0;
            let mut k: usize = 0;
            while k < iters.len()
                invariant
                    k <= iters@.len() <= u64::MAX,
                    total_iters == seq_sum(iters@.subrange(0, k as int)),
                    total_iters <= k * u64::MAX,
                decreases iters@.len() - k,
            {
                assert(iters@.subrange(0, k + 1).drop_last() =~= iters@.subrange(0, k as int));
                assert(total_iters + iters@[k as int] <= (k + 1) * u64::MAX) by (nonlinear_arith)
                    requires
                        total_iters <= k * u64::MAX,
                        iters@[k as int] <= u64::MAX,
                ;
                assert((k + 1) * u64::MAX <= u64::MAX * u64::MAX) by (nonlinear_arith)
                    requires
                        k + 1 <= u64::MAX,
                ;
                total_iters = total_iters + iters[k] as u128;
                k = k + 1;
            }
            assert(iters@.subrange(0, k as int) =~= iters@);
            (iters, total_iters)
        },
    }
}

/// A finished measurement, ready to be reported and stored.
#[derive(Debug, Clone, PartialEq, Eq)]
pub struct Measurement {
    /// The label the results belong to.
    pub label: &'static str,
    /// What the warm-up found.
    pub warm_up: WarmupResults,
    /// The samples taken.
    pub data: SamplingData,
    /// The iterations of all samples together.
    pub total_iterations: u128,
}

/// What every benchmark entry point promises of its measurement.
pub open spec fn is_measurement_of(
    m: Measurement,
    label: &'static str,
    cfg: BenchmarkConfig,
) -> bool {
    &&& label_is_valid(label@) ==> m.label == label
    &&& !label_is_valid(label@) ==> m.label == ANONYMOUS
    &&& label_is_valid(m.label@)
    &&& 1 <= m.warm_up.iterations <= u64::MAX
    &&& m.warm_up.iterations & ((m.warm_up.iterations + 1) as u128) == 0
    &&& cfg.warm_up_time_nanos == 0 ==> m.warm_up.iterations == 1
    &&& m.warm_up.elapsed >= cfg.warm_up_time_nanos
    &&& m.data.wf()
    &&& is_plan(m.data.samples@, cfg, m.warm_up)
    &&& m.total_iterations == seq_sum(m.data.samples@)
}

/// Warms up, plans the samples and measures them, under a label. An unusable
/// label is replaced by the anonymous one.
pub fn bench_with_configuration_labeled<T, F: FnMut() -> T>(
    label: &'static str,
    cfg: &BenchmarkConfig,
    mut closure: F,
) -> (r: Measurement)
    requires
        call_requires(closure, ()),
    ensures
        is_measurement_of(r, label, *cfg),
{
    let label = fallback_to_anonymous_on_invalid_label(label);
    let warm_up = run_warm_up(&mut closure, cfg.warm_up_time_nanos);
    let (iters, total_iterations) = calculate_iters_and_total_iters(cfg, warm_up);
    let data = run(iters, closure);
    Measurement { label, warm_up, data, total_iterations }
}

/// Measures the closure under the default configuration and the anonymous label.
pub fn bench<T, F: FnMut() -> T>(closure: F) -> (r: Measurement)
    requires
        call_requires(closure, ()),
    ensures
        is_measurement_of(r, ANONYMOUS, default_config()),
{
    bench_with_configuration(&BenchmarkConfig::default(), closure)
}

/// Measures the closure under the default configuration and a label, so that
/// later runs under the same label can be compared with it.
pub fn bench_labeled<T, F: FnMut() -> T>(label: &'static str, closure: F) -> (r: Measurement)
    requires
        call_requires(closure, ()),
    ensures
        is_measurement_of(r, label, default_config()),
{
    bench_with_configuration_labeled(label, &BenchmarkConfig::default(), closure)
}

/// Measures the closure under the given configuration and the anonymous label.
pub fn bench_with_configuration<T, F: FnMut() -> T>(cfg: &BenchmarkConfig, closure: F) -> (r:
    Measurement)
    requires
        call_requires(closure, ()),
    ensures
        is_measurement_of(r, ANONYMOUS, *cfg),
{
    bench_with_configuration_labeled(ANONYMOUS, cfg, closure)
}

/// Warms up, plans the samples and measures them, for work that needs an
/// untimed setup before each iteration. An unusable label is replaced by the
/// anonymous one.
pub fn bench_with_setup_configuration_labeled<T, R, F: FnMut(R) -> T, S: FnMut() -> R>(
    label: &'static str,
    cfg: &BenchmarkConfig,
    mut setup: S,
    mut closure: F,
) -> (r: Measurement)
    requires
        call_requires(setup, ()),
        forall|x: R| call_requires(closure, (x,)),
    ensures
        is_measurement_of(r, label, *cfg),
{
    let label = fallback_to_anonymous_on_invalid_label(label);
    let warm_up = run_warm_up_with_setup(&mut setup, &mut closure, cfg.warm_up_time_nanos);
    let (iters, total_iterations) = calculate_iters_and_total_iters(cfg, warm_up);
    let data = run_with_setup(iters, setup, closure);
    Measurement { label, warm_up, data, total_iterations }
}

/// Measures work with setup under the default configuration and the anonymous label.
pub fn bench_with_setup<T, R, F: FnMut(R) -> T, S: FnMut() -> R>(setup: S, closure: F) -> (r:
    Measurement)
    requires
        call_requires(setup, ()),
        forall|x: R| call_requires(closure, (x,)),
    ensures
        is_measurement_of(r, ANONYMOUS, default_config()),
{
    bench_with_setup_configuration_labeled(ANONYMOUS, &BenchmarkConfig::default(), setup, closure)
}

/// Measures work with setup under the default configuration and a label.
pub fn bench_with_setup_labeled<T, R, F: FnMut(R) -> T, S: FnMut() -> R>(
    label: &'static str,
    setup: S,
    closure: F,
) -> (r: Measurement)
    requires
        call_requires(setup, ()),
        forall|x: R| call_requires(closure, (x,)),
    ensures
        is_measurement_of(r, label, default_config()),
{
    bench_with_setup_configuration_labeled(label, &BenchmarkConfig::default(), setup, closure)
}

/// Measures work with setup under the given configuration and the anonymous label.
pub fn bench_with_setup_configuration<T, R, F: FnMut(R) -> T, S: FnMut() -> R>(
    cfg: &BenchmarkConfig,
    setup: S,
    closure: F,
) -> (r: Measurement)
    requires
        call_requires(setup, ()),
        forall|x: R| call_requires(closure, (x,)),
    ensures
        is_measurement_of(r, ANONYMOUS, *cfg),
{
    bench_with_setup_configuration_labeled(ANONYMOUS, cfg, setup, closure)
}

} // verus!
