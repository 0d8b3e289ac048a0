//! Timing of single runs of a closure.
use vstd::prelude::*;
use std::time::{Duration, Instant};

verus! {

/// Data collected after a timed run, in nanoseconds.
#[derive(Copy, Clone, Debug, PartialEq, Eq)]
pub struct TimingData {
    /// The least time one iteration took.
    pub min_nanos: u128,
    /// The most time one iteration took.
    pub max_nanos: u128,
    /// The time all iterations took together.
    pub elapsed: u128,
    /// How many iterations ran.
    pub iterations: u128,
}

impl TimingData {
    /// Nothing measured yet: the least time is the largest value, so that
    /// any measurement replaces it.
    pub open spec fn is_empty(&self) -> bool {
        &&& self.min_nanos == u128::MAX
        &&& self.max_nanos == 0
        &&& self.elapsed == 0
        &&& self.iterations == 0
    }

    /// What holds of data gathered from real measurements.
    pub open spec fn is_consistent(&self) -> bool {
        self.iterations > 0 ==> self.min_nanos <= self.max_nanos <= self.elapsed
    }

    /// Timing data with no measurement in it.
    pub fn empty() -> (r: TimingData)
        ensures
            r.is_empty(),
            r.is_consistent(),
    {
        TimingData { min_nanos: u128::MAX, max_nanos: 0, elapsed: 0, iterations: 0 }
    }

    /// Adds one iteration that took `nanos`; the total saturates.
    pub fn record(&mut self, nanos: u128)
        requires
            old(self).iterations < u128::MAX,
        ensures
            final(self).iterations == old(self).iterations + 1,
            final(self).min_nanos == if nanos < old(self).min_nanos {
                nanos
            } else {
                old(self).min_nanos
            },
            final(self).max_nanos == if nanos > old(self).max_nanos {
                nanos
            } else {
                old(self).max_nanos
            },
            final(self).elapsed == if old(self).elapsed + nanos > u128::MAX {
                u128::MAX as int
            } else {
                old(self).elapsed + nanos
            },
            old(self).is_consistent() && (old(self).iterations == 0 ==> old(self).is_empty())
                ==> final(self).is_consistent(),
    {
        if nanos < self.min_nanos {
            self.min_nanos = nanos;
        }
        if nanos > self.max_nanos {
            self.max_nanos = nanos;
        }
        self.elapsed = self.elapsed.saturating_add(nanos);
        self.iterations = self.iterations + 1;
    }
}

/// Runs the closure once and returns how long it took.
pub fn run_timed<T, F: FnMut() -> T>(mut closure: F) -> Duration
    requires
        call_requires(closure, ()),
{
    let start = Instant::now();
    closure();
    start.elapsed()
}

/// Runs the closure `iterations` times, timing each run.
pub fn run_timed_times<T, F: FnMut() -> T>(iterations: usize, mut closure: F) -> (r: TimingData)
    requires
        call_requires(closure, ()),
    ensures
        r.iterations == iterations,
        r.is_consistent(),
        iterations == 0 ==> r.is_empty(),
{
    let mut data = TimingData::empty();
    let mut i: usize = 0;
    while i < iterations
        invariant
            call_requires(closure, ()),
            i <= iterations,
            data.iterations == i,
            data.is_consistent(),
            i == 0 ==> data.is_empty(),
        decreases iterations - i,
    {
        let start = Instant::now();
        closure();
        let nanos = start.elapsed().as_nanos();
        data.record(nanos);
        i = i + 1;
    }
    data
}

} // verus!
