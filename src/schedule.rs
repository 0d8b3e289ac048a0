//! How many iterations each sample runs.
//!
//! Sample `k` (counting from 1) runs `k * d` iterations for a common step `d`.
//! The mean cost of one iteration is the rational `elapsed / iterations` from
//! the warm-up, raised to at least one nanosecond. `d` is the least step, at
//! least 1, for which all samples together are expected to take the target
//! time. When that step is 1 the target cannot be met with the requested
//! sample count, so the count is lowered one at a time until the step exceeds
//! 1 or a single sample is left.
use vstd::prelude::*;

verus! {

/// `1 + 2 + ... + n`: the number of steps that `n` samples run together.
pub open spec fn total_weight(n: nat) -> nat
    decreases n,
{
    if n == 0 {
        0
    } else {
        n + total_weight((n - 1) as nat)
    }
}

/// The least `q` with `q * den >= num`.
pub open spec fn ceil_div(num: nat, den: nat) -> nat
    recommends
        den > 0,
{
    if num % den == 0 {
        num / den
    } else {
        num / den + 1
    }
}

/// The step for `n` samples: the least `d >= 1` with
/// `d * total_weight(n) * max(elapsed, iterations) >= target * iterations`,
/// i.e. `d * total_weight(n) * cost >= target` for the clamped mean cost.
/// Without iterations or samples the cost is unbounded and the step is 1.
pub open spec fn step_for(elapsed: nat, iterations: nat, n: nat, target: nat) -> nat {
    let cost = if elapsed >= iterations {
        elapsed
    } else {
        iterations
    };
    let num = target * iterations;
    let den = cost * total_weight(n);
    if iterations == 0 || n == 0 || num <= den {
        1
    } else {
        ceil_div(num, den)
    }
}

/// The sample count after compression, starting from `n`.
pub open spec fn sample_count(elapsed: nat, iterations: nat, n: nat, target: nat) -> nat
    decreases n,
{
    if n <= 1 || step_for(elapsed, iterations, n, target) > 1 {
        n
    } else {
        sample_count(elapsed, iterations, (n - 1) as nat, target)
    }
}

/// Compression never raises the sample count.
pub proof fn lemma_sample_count_le(elapsed: nat, iterations: nat, n: nat, target: nat)
    ensures
        sample_count(elapsed, iterations, n, target) <= n,
    decreases n,
{
    if n > 1 && step_for(elapsed, iterations, n, target) <= 1 {
        lemma_sample_count_le(elapsed, iterations, (n - 1) as nat, target);
    }
}

/// `s` is the schedule for this warm-up outcome, sample count and target.
pub open spec fn is_schedule(s: Seq<u64>, elapsed: nat, iterations: nat, n: nat, target: nat) -> bool {
    &&& s.len() == sample_count(elapsed, iterations, n, target)
    &&& forall|j: int|
        0 <= j < s.len() ==> #[trigger] s[j] == (j + 1) * step_for(
            elapsed,
            iterations,
            s.len(),
            target,
        )
}

pub proof fn lemma_total_weight(n: nat)
    ensures
        2 * total_weight(n) == n * (n + 1),
        n >= 1 ==> total_weight(n) >= n,
    decreases n,
{
    if n == 0 {
        assert(n * (n + 1) == 0) by (nonlinear_arith)
            requires
                n == 0,
        ;
    } else {
        lemma_total_weight((n - 1) as nat);
        let t = total_weight((n - 1) as nat);
        assert(total_weight(n) == n + t);
        assert(2 * (n + t) == n * (n + 1)) by (nonlinear_arith)
            requires
                2 * t == (n - 1) * ((n - 1) + 1),
                n >= 1,
        ;
    }
}

/// The step is the least `d >= 1` for which the samples together are expected
/// to take at least the target time: with the mean cost `max(elapsed,
/// iterations) / iterations`, `d * total_weight(n) * cost >= target`, and any
/// smaller step `s >= 1` falls short.
pub proof fn lemma_step_is_least(elapsed: nat, iterations: nat, n: nat, target: nat, s: nat)
    requires
        iterations > 0,
        n > 0,
        s >= 1,
    ensures
        ({
            let cost = if elapsed >= iterations {
                elapsed
            } else {
                iterations
            };
            let d = step_for(elapsed, iterations, n, target);
            &&& d * total_weight(n) * cost >= target * iterations
            &&& s < d ==> s * total_weight(n) * cost < target * iterations
        }),
{
    let d = step_for(elapsed, iterations, n, target);
    let cost = if elapsed >= iterations {
        elapsed
    } else {
        iterations
    };
    let num = target * iterations;
    let tw = total_weight(n);
    let den = cost * tw;
    lemma_total_weight(n);
    assert(den > 0) by (nonlinear_arith)
        requires
            den == cost * tw,
            cost >= 1,
            tw >= 1,
    ;
    assert(d * tw * cost == d * den && s * tw * cost == s * den) by (nonlinear_arith)
        requires
            den == cost * tw,
    ;
    if num > den {
        let q = num / den;
        let r = num % den;
        assert(num == q * den + r && 0 <= r < den) by (nonlinear_arith)
            requires
                den > 0,
                q == num / den,
                r == num % den,
        ;
        assert(d * den >= num && (d - 1) * den < num) by (nonlinear_arith)
            requires
                d == if r == 0 {
                    q
                } else {
                    q + 1
                },
                num == q * den + r,
                0 <= r < den,
        ;
        assert(s < d ==> s * den < num) by (nonlinear_arith)
            requires
                (d - 1) * den < num,
                den > 0,
        ;
    }
}

/// The step never exceeds the target (when above 1), and a step above 1
/// leaves `(d - 1) * total_weight(n)` below the target.
proof fn lemma_step_bounds(elapsed: nat, iterations: nat, n: nat, target: nat)
    ensures
        step_for(elapsed, iterations, n, target) >= 1,
        step_for(elapsed, iterations, n, target) > 1 ==> step_for(elapsed, iterations, n, target)
            <= target && (step_for(elapsed, iterations, n, target) - 1) * total_weight(n)
            < target,
{
    let d = step_for(elapsed, iterations, n, target);
    let cost = if elapsed >= iterations {
        elapsed
    } else {
        iterations
    };
    let num = target * iterations;
    let tw = total_weight(n);
    let den = cost * tw;
    if !(iterations == 0 || n == 0 || num <= den) {
        lemma_total_weight(n);
        assert(den >= iterations) by (nonlinear_arith)
            requires
                den == cost * tw,
                cost >= iterations,
                tw >= 1,
        ;
        let q = num / den;
        let r = num % den;
        assert(num == q * den + r && r < den && q >= 1) by (nonlinear_arith)
            requires
                den > 0,
                num > den,
                q == num / den,
                r == num % den,
        ;
        assert(q <= target) by (nonlinear_arith)
            requires
                num == q * den + r,
                num == target * iterations,
                den >= iterations,
                iterations > 0,
                r >= 0,
        ;
        assert(r > 0 ==> q < target) by (nonlinear_arith)
            requires
                num == q * den + r,
                num == target * iterations,
                den >= iterations,
                iterations > 0,
        ;
        assert((d - 1) * den < num) by (nonlinear_arith)
            requires
                d == if r == 0 {
                    q
                } else {
                    q + 1
                },
                num == q * den + r,
                num > den,
                den > 0,
        ;
        assert((d - 1) * tw < target) by (nonlinear_arith)
            requires
                (d - 1) * (cost * tw) < target * iterations,
                cost >= iterations,
                iterations > 0,
                d >= 1,
        ;
    }
}

/// Every entry `k * d` with `k <= n` of a schedule fits under the target, or
/// under `n` when the step is 1.
proof fn lemma_entries_fit(n: nat, d: nat, target: nat, k: nat)
    requires
        1 <= k <= n,
        d >= 1,
        d > 1 ==> d <= target && (d - 1) * total_weight(n) < target,
    ensures
        k * d <= if d == 1 {
            n
        } else {
            target
        },
{
    if d > 1 {
        lemma_total_weight(n);
        let tw = total_weight(n);
        if n >= 3 {
            assert(n * d <= (d - 1) * tw) by (nonlinear_arith)
                requires
                    2 * tw == n * (n + 1),
                    n >= 3,
                    d >= 2,
            ;
        } else if n == 2 {
            assert(tw == 3) by (nonlinear_arith)
                requires
                    2 * tw == n * (n + 1),
                    n == 2,
            ;
        } else {
            assert(tw == 1) by (nonlinear_arith)
                requires
                    2 * tw == n * (n + 1),
                    n == 1,
            ;
        }
        assert(n * d <= target);
    }
    assert(k * d <= n * d) by (nonlinear_arith)
        requires
            k <= n,
    ;
}

/// The step for `n` samples, computed without overflow.
fn step(elapsed: u128, iterations: u64, n: u64, target: u64) -> (d: u64)
    ensures
        d == step_for(elapsed as nat, iterations as nat, n as nat, target as nat),
{
    proof {
        lemma_step_bounds(elapsed as nat, iterations as nat, n as nat, target as nat);
        lemma_total_weight(n as nat);
    }
    if iterations == 0 || n == 0 {
        return 1;
    }
    let cost: u128 = if elapsed >= iterations as u128 {
        elapsed
    } else {
        iterations as u128
    };
    let n128 = n as u128;
    assert(n128 * (n128 + 1) <= u128::MAX) by (nonlinear_arith)
        requires
            n128 <= u64::MAX,
    ;
    let total: u128 = n128 * (n128 + 1) / 2;
    assert(total == total_weight(n as nat));
    let t128 = target as u128;
    let i128 = iterations as u128;
    assert(t128 * i128 <= u128::MAX) by (nonlinear_arith)
        requires
            t128 <= u64::MAX,
            i128 <= u64::MAX,
    ;
    let num: u128 = t128 * i128;
    match cost.checked_mul(total) {
        None => 1,
        Some(den) => {
            assert(den >= 1) by (nonlinear_arith)
                requires
                    den == cost * total,
                    cost >= 1,
                    total >= 1,
            ;
            if num <= den {
                1
            } else {
                let q = num / den;
                if num % den == 0 {
                    q as u64
                } else {
                    (q + 1) as u64
                }
            }
        },
    }
}

/// The iteration counts of each sample, `[d, 2 * d, ..., m * d]`, where `m`
/// is the sample count after compression and `d` its step. The mean cost of
/// one iteration is `elapsed_nanos / iterations`, raised to at least 1ns.
pub fn calculate_iterations(
    elapsed_nanos: u128,
    iterations: u64,
    num_samples: u64,
    target_nanos: u64,
) -> (r: Vec<u64>)
    ensures
        is_schedule(r@, elapsed_nanos as nat, iterations as nat, num_samples as nat, target_nanos as nat),
        r@.len() <= num_samples,
{
    let ghost e = elapsed_nanos as nat;
    let ghost i = iterations as nat;
    let ghost t = target_nanos as nat;
    let mut n = num_samples;
    let mut d = step(elapsed_nanos, iterations, n, target_nanos);
    while d == 1 && n > 1
        invariant
            e == elapsed_nanos as nat,
            i == iterations as nat,
            t == target_nanos as nat,
            n <= num_samples,
            d == step_for(e, i, n as nat, t),
            sample_count(e, i, n as nat, t) == sample_count(e, i, num_samples as nat, t),
        decreases n,
    {
        n = n - 1;
        d = step(elapsed_nanos, iterations, n, target_nanos);
    }
    proof {
        lemma_step_bounds(e, i, n as nat, t);
        lemma_sample_count_le(e, i, num_samples as nat, t);
    }
    let mut v: Vec<u64> = Vec::new();
    let mut k: u64 = 0;
    while k < n
        invariant
            t == target_nanos as nat,
            k <= n,
            d == step_for(e, i, n as nat, t),
            d >= 1,
            d > 1 ==> d <= t && (d - 1) * total_weight(n as nat) < t,
            v@.len() == k,
            forall|j: int| 0 <= j < k ==> #[trigger] v@[j] == (j + 1) * d,
        decreases n - k,
    {
        proof {
            lemma_entries_fit(n as nat, d as nat, t, (k + 1) as nat);
        }
        v.push((k + 1) * d);
        k = k + 1;
    }
    v
}

} // verus!
