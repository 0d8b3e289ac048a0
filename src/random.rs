//! A linear congruential generator with glibc's constants.
use vstd::prelude::*;
use std::time::{SystemTime, UNIX_EPOCH};

verus! {

#[verifier::external_type_specification]
#[verifier::external_body]
pub struct ExSystemTime(std::time::SystemTime);

#[verifier::external_type_specification]
#[verifier::external_body]
pub struct ExSystemTimeError(std::time::SystemTimeError);

/// Relies on std::time::SystemTime::now: a reading of the wall clock.
/// Nothing is known of its value.
pub assume_specification[ std::time::SystemTime::now ]() -> std::time::SystemTime;

/// Relies on std::time::SystemTime::duration_since: the time between two
/// readings, or an error when the other is later. Nothing is known of either.
pub assume_specification[ std::time::SystemTime::duration_since ](
    self_: &std::time::SystemTime,
    earlier: std::time::SystemTime,
) -> core::result::Result<core::time::Duration, std::time::SystemTimeError>;

/// Relies on std::time::UNIX_EPOCH: the origin of wall-clock readings.
#[verifier::external_body]
fn unix_epoch() -> SystemTime {
    UNIX_EPOCH
}

pub const MODULUS: u128 = 281_474_976_710_656;

pub const MULTIPLIER: u128 = 25_214_903_917;

pub const INCREMENT: u128 = 11;

/// The state after `s`.
pub open spec fn lcg_next(s: u64) -> u64 {
    ((MULTIPLIER * s + INCREMENT) % (MODULUS as int)) as u64
}

/// The state `k` steps after `s`.
pub open spec fn lcg_iter(s: u64, k: nat) -> u64
    decreases k,
{
    if k == 0 {
        s
    } else {
        lcg_next(lcg_iter(s, (k - 1) as nat))
    }
}

/// A source of pseudo-random numbers below `2^48`.
pub struct Rng {
    seed: u64,
}

impl Rng {
    /// The current state, which is also the last number returned.
    pub closed spec fn state(&self) -> u64 {
        self.seed
    }

    /// A generator seeded from the wall clock (from 0 if the clock reads
    /// before 1970).
    pub fn new() -> Rng {
        let seed = match SystemTime::now().duration_since(unix_epoch()) {
            Ok(d) => d.as_nanos() as u64,
            Err(_) => 0,
        };
        Rng { seed }
    }

    /// A generator in the given state.
    pub fn from_seed(seed: u64) -> (r: Rng)
        ensures
            r.state() == seed,
    {
        Rng { seed }
    }

    /// Steps the generator and returns the new state.
    pub fn next(&mut self) -> (r: u64)
        ensures
            r == lcg_next(old(self).state()),
            final(self).state() == r,
    {
        assert(MULTIPLIER * self.seed + INCREMENT <= u128::MAX) by (nonlinear_arith)
            requires
                self.seed <= u64::MAX,
        ;
        self.seed = ((MULTIPLIER * self.seed as u128 + INCREMENT) % MODULUS) as u64;
        self.seed
    }
}

} // verus!
