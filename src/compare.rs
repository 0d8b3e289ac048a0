//! The integer parts of comparing a run with the previous one.
//!
//! The p-value is `2 * min(hits, n - hits) / n`, where `hits` counts the
//! resampled statistics strictly below the observed one among `n`: a
//! two-tailed rank approximation, not an analytic p-value.
use vstd::prelude::*;
use std::cmp::Ordering;

verus! {

/// How the new mean stands against the old one.
#[derive(Debug, Clone, Copy, PartialEq, Eq)]
pub enum Comparison {
    /// Significantly slower.
    Worse,
    /// No significant change.
    Same,
    /// Significantly faster.
    Better,
}

/// The numerator of the two-tailed p-value: twice the smaller tail.
pub fn p_value_count(hits: usize, len: usize) -> (r: usize)
    requires
        hits <= len,
    ensures
        r == 2 * (if hits <= len - hits {
            hits as int
        } else {
            len - hits
        }),
{
    let other = len - hits;
    let min = if hits <= other {
        hits
    } else {
        other
    };
    2 * min
}

/// A change counts only when it exceeds the noise threshold and is
/// significant; then a higher mean is worse and a lower one better.
/// `direction` is the new mean compared with the old.
pub fn classify(direction: Ordering, exceeds_noise: bool, significant: bool) -> (r: Comparison)
    ensures
        r == if exceeds_noise && significant {
            match direction {
                Ordering::Greater => Comparison::Worse,
                Ordering::Less => Comparison::Better,
                Ordering::Equal => Comparison::Same,
            }
        } else {
            Comparison::Same
        },
{
    if exceeds_noise && significant {
        match direction {
            Ordering::Greater => Comparison::Worse,
            Ordering::Less => Comparison::Better,
            Ordering::Equal => Comparison::Same,
        }
    } else {
        Comparison::Same
    }
}

} // verus!
