//! The outside sources the engine draws on: wall-clock time, a monotonic
//! clock for elapsed time, and a pseudo-random generator. Nothing is known of
//! what they return beyond the ranges their documentation promises.

use rand::Rng;
use std::time::Duration;
use std::time::Instant;
use vstd::prelude::*;

verus! {

#[verifier::external_type_specification]
#[verifier::external_body]
pub struct ExInstant(Instant);

/// Relies on std's `Instant::now`: a reading of the monotonic clock.
pub assume_specification[ Instant::now ]() -> Instant;

/// Relies on std's `Instant::elapsed`: the time since an earlier reading.
pub assume_specification[ Instant::elapsed ](i: &Instant) -> Duration;

/// Relies on std's `Duration::as_micros`: a duration in whole microseconds.
pub assume_specification[ Duration::as_micros ](d: &Duration) -> u128;

/// Relies on chrono's `Utc::now` and `DateTime::timestamp`: the current time
/// as whole seconds since the Unix epoch.
#[verifier::external_body]
pub(crate) fn now_timestamp() -> (r: i64) {
    chrono::Utc::now().timestamp()
}

/// Relies on rand's `random::<u64>`: a value drawn from the thread-local
/// generator, uniform over all of `u64`.
#[verifier::external_body]
pub(crate) fn random_u64() -> (r: u64) {
    rand::random::<u64>()
}

/// Relies on rand's `Rng::gen_range` on the thread-local generator: a value
/// drawn uniformly from `low..high`, which panics when that range is empty.
#[verifier::external_body]
pub(crate) fn random_in_range(low: u32, high: u32) -> (r: u32)
    requires
        low < high,
    ensures
        low <= r < high,
{
    rand::thread_rng().gen_range(low..high)
}

} // verus!
