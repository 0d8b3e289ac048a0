//! The monotonic clock and the optimizer barrier, as std provides them.
use vstd::prelude::*;

verus! {

#[verifier::external_type_specification]
#[verifier::external_body]
pub struct ExInstant(std::time::Instant);

/// Relies on std::time::Instant::now: a reading of the monotonic clock.
/// Nothing is known of its value.
pub assume_specification[ std::time::Instant::now ]() -> std::time::Instant;

/// Relies on std::time::Instant::elapsed: the time since a reading of the
/// clock. Nothing is known of its value.
pub assume_specification[ std::time::Instant::elapsed ](
    self_: &std::time::Instant,
) -> core::time::Duration;

/// Relies on core::time::Duration::as_nanos: a duration in whole
/// nanoseconds. Nothing is known of the durations the clock gives.
pub assume_specification[ core::time::Duration::as_nanos ](self_: &core::time::Duration) -> u128;

/// Relies on core::hint::black_box, which its documentation describes as an
/// identity function that the optimizer must treat as opaque.
pub assume_specification<T>[ core::hint::black_box::<T> ](dummy: T) -> (r: T)
    ensures
        r == dummy,
;

} // verus!
