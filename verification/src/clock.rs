//! The monotonic clock that drives the timer.
use std::time::{Duration, Instant};
use vstd::prelude::*;

verus! {

#[verifier::external_type_specification]
#[verifier::external_body]
pub struct ExInstant(Instant);

/// `Instant::now`: the current instant. Nothing is stated of it: it is
/// whatever the clock reads.
#[verifier::external_body]
pub(crate) fn clock_now() -> Instant {
    Instant::now()
}

/// `Instant::elapsed`, in whole seconds (`Duration::as_secs`): how long ago
/// `since` was. Nothing is stated of it: it depends on the clock.
#[verifier::external_body]
pub(crate) fn whole_secs_since(since: &Instant) -> u64 {
    since.elapsed().as_secs()
}

/// `Instant::checked_add` of a whole number of seconds: the instant that
/// lies `secs` seconds after `t`, or `None` where the clock cannot represent
/// it. Nothing is stated of the instant, which is opaque to the proofs.
#[verifier::external_body]
pub(crate) fn later_by_secs(t: &Instant, secs: u64) -> Option<Instant> {
    t.checked_add(Duration::from_secs(secs))
}

} // verus!
