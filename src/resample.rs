//! Bootstrap resampling of two pooled samples.
//!
//! Under the assumption that two samples come from one population, the
//! samples are pooled and redrawn with replacement, then split back into
//! groups the sizes of the two samples; a statistic of each pair of groups gives an
//! empirical distribution to hold the observed statistic against.
use vstd::prelude::*;
use crate::random::{lcg_iter, Rng};

verus! {

/// The pooled resample drawn from generator state `seed`: entry `j` is the
/// pooled entry at the `(j + 1)`-th number of the generator, modulo the
/// pooled length.
pub open spec fn resample_of<T>(pooled: Seq<T>, seed: u64) -> Seq<T> {
    Seq::new(pooled.len(), |j: int| pooled[lcg_iter(seed, (j + 1) as nat) as int % pooled.len() as int])
}

/// `a` and `b` are the two groups of the resample drawn from `seed`.
pub open spec fn is_resample_pair<T>(a: Seq<T>, b: Seq<T>, pooled: Seq<T>, a_len: nat, seed: u64) -> bool {
    &&& a.len() == a_len
    &&& a + b == resample_of(pooled, seed)
}

/// `v` is a value of `stat` on the two groups of the resample of `pooled`
/// drawn from generator state `seed`.
pub open spec fn is_stat_of_draw<T, R, G: Fn(&Vec<T>, &Vec<T>) -> R>(
    v: R,
    stat: G,
    pooled: Seq<T>,
    a_len: nat,
    seed: u64,
) -> bool {
    exists|x: Vec<T>, y: Vec<T>|
        #[trigger] is_resample_pair(x@, y@, pooled, a_len, seed) && call_ensures(stat, (&x, &y), v)
}

/// Entry `k` of `r` is a value of `stat` on the `k`-th resample of `a` and
/// `b` drawn from generator state `seed`; each draw uses up as many numbers
/// as there are pooled entries.
pub open spec fn is_distribution<T, R, G: Fn(&Vec<T>, &Vec<T>) -> R>(
    r: Seq<R>,
    a: Seq<T>,
    b: Seq<T>,
    seed: u64,
    stat: G,
) -> bool {
    forall|k: int|
        0 <= k < r.len() ==> is_stat_of_draw(
            #[trigger] r[k],
            stat,
            a + b,
            a.len(),
            lcg_iter(seed, (k * (a.len() + b.len())) as nat),
        )
}

/// Pools `sample_a` and `sample_b`, in that order.
pub fn pool<T: Copy>(sample_a: &Vec<T>, sample_b: &Vec<T>) -> (r: Vec<T>)
    requires
        sample_a@.len() + sample_b@.len() <= usize::MAX,
    ensures
        r@ == sample_a@ + sample_b@,
{
    let mut combined: Vec<T> = Vec::new();
    let mut i: usize = 0;
    while i < sample_a.len()
        invariant
            i <= sample_a@.len(),
            combined@ == sample_a@.subrange(0, i as int),
        decreases sample_a@.len() - i,
    {
        combined.push(sample_a[i]);
        i = i + 1;
        assert(combined@ =~= sample_a@.subrange(0, i as int));
    }
    let mut j: usize = 0;
    while j < sample_b.len()
        invariant
            j <= sample_b@.len(),
            combined@ == sample_a@ + sample_b@.subrange(0, j as int),
        decreases sample_b@.len() - j,
    {
        combined.push(sample_b[j]);
        j = j + 1;
        assert(combined@ =~= sample_a@ + sample_b@.subrange(0, j as int));
    }
    assert(sample_a@.subrange(0, i as int) =~= sample_a@);
    assert(sample_b@.subrange(0, j as int) =~= sample_b@);
    combined
}

/// Draws one resample of `pooled` with replacement and splits it after
/// `a_len` entries.
pub fn draw_resample<T: Copy>(pooled: &Vec<T>, a_len: usize, rng: &mut Rng) -> (r: (Vec<T>, Vec<T>))
    requires
        a_len <= pooled@.len(),
    ensures
        is_resample_pair(r.0@, r.1@, pooled@, a_len as nat, old(rng).state()),
        final(rng).state() == lcg_iter(old(rng).state(), pooled@.len()),
{
    let ghost seed = rng.state();
    let ghost target = resample_of(pooled@, seed);
    let len = pooled.len();
    let mut drawn: Vec<T> = Vec::new();
    let mut j: usize = 0;
    while j < len
        invariant
            len == pooled@.len(),
            target == resample_of(pooled@, seed),
            j <= len,
            rng.state() == lcg_iter(seed, j as nat),
            drawn@ == target.subrange(0, j as int),
        decreases len - j,
    {
        let x = rng.next();
        let index = (x % len as u64) as usize;
        assert(x == lcg_iter(seed, (j + 1) as nat));
        assert(target[j as int] == pooled@[index as int]);
        drawn.push(pooled[index]);
        j = j + 1;
        assert(drawn@ =~= target.subrange(0, j as int));
    }
    assert(target.subrange(0, j as int) =~= target);
    let b = drawn.split_off(a_len);
    assert(drawn@ + b@ =~= target);
    (drawn, b)
}

/// Draws `times` resamples from `rng` and applies `stat` to each pair of groups.
pub fn resample_with<T: Copy, R, G: Fn(&Vec<T>, &Vec<T>) -> R>(
    sample_a: &Vec<T>,
    sample_b: &Vec<T>,
    times: usize,
    rng: &mut Rng,
    stat: G,
) -> (r: Vec<R>)
    requires
        sample_a@.len() + sample_b@.len() <= usize::MAX,
        forall|x: &Vec<T>, y: &Vec<T>| call_requires(stat, (x, y)),
    ensures
        r@.len() == times,
        is_distribution(r@, sample_a@, sample_b@, old(rng).state(), stat),
{
    let combined = pool(sample_a, sample_b);
    let ghost seed = rng.state();
    let ghost n = combined@.len();
    let mut distributions: Vec<R> = Vec::new();
    let mut k: usize = 0;
    while k < times
        invariant
            combined@ == sample_a@ + sample_b@,
            n == combined@.len(),
            forall|x: &Vec<T>, y: &Vec<T>| call_requires(stat, (x, y)),
            k <= times,
            rng.state() == lcg_iter(seed, (k * n) as nat),
            distributions@.len() == k,
            is_distribution(distributions@, sample_a@, sample_b@, seed, stat),
        decreases times - k,
    {
        let (x, y) = draw_resample(&combined, sample_a.len(), rng);
        let t = stat(&x, &y);
        assert(is_resample_pair(x@, y@, combined@, sample_a@.len(), lcg_iter(seed, (k * n) as nat)));
        assert(is_stat_of_draw(t, stat, combined@, sample_a@.len(), lcg_iter(seed, (k * n) as nat)));
        proof {
            lemma_lcg_iter_add(seed, (k * n) as nat, n);
            assert((k * n + n) == (k + 1) * n) by (nonlinear_arith);
        }
        let ghost old_d = distributions@;
        distributions.push(t);
        assert forall|i: int| 0 <= i < distributions@.len() implies is_stat_of_draw(
            #[trigger] distributions@[i],
            stat,
            sample_a@ + sample_b@,
            sample_a@.len(),
            lcg_iter(seed, (i * n) as nat),
        ) by {
            if i < k {
                assert(distributions@[i] == old_d[i]);
            }
        }
        k = k + 1;
    }
    distributions
}

/// `k + m` steps are `m` steps after `k` steps.
pub proof fn lemma_lcg_iter_add(s: u64, k: nat, m: nat)
    ensures
        lcg_iter(s, k + m) == lcg_iter(lcg_iter(s, k), m),
    decreases m,
{
    if m > 0 {
        lemma_lcg_iter_add(s, k, (m - 1) as nat);
    }
}

/// Draws `times` resamples from a generator seeded from the wall clock and
/// applies `stat` to each; the result is the distribution of the statistic.
pub fn resample<T: Copy, R, G: Fn(&Vec<T>, &Vec<T>) -> R>(
    sample_a: &Vec<T>,
    sample_b: &Vec<T>,
    times: usize,
    stat: G,
) -> (r: Vec<R>)
    requires
        sample_a@.len() + sample_b@.len() <= usize::MAX,
        forall|x: &Vec<T>, y: &Vec<T>| call_requires(stat, (x, y)),
    ensures
        r@.len() == times,
        exists|seed: u64| #[trigger] is_distribution(r@, sample_a@, sample_b@, seed, stat),
{
    let mut rng = Rng::new();
    let ghost seed = rng.state();
    let r = resample_with(sample_a, sample_b, times, &mut rng, stat);
    assert(is_distribution(r@, sample_a@, sample_b@, seed, stat));
    r
}

} // verus!
