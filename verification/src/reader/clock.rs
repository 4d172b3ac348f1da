//! When loading started.

use vstd::prelude::*;

verus! {

/// A point in time of `embassy_time`, carried through.
#[verifier::external_type_specification]
#[verifier::external_body]
pub struct ExInstant(embassy_time::Instant);

/// `embassy_time::Instant::now`: the time of the device's clock. Nothing is
/// claimed of it.
#[verifier::external_body]
fn instant_now() -> (t: embassy_time::Instant) {
    embassy_time::Instant::now()
}

/// Milliseconds of `embassy_time` from `since` to now, by
/// `Instant::saturating_duration_since` and `Duration::as_millis`; none where
/// `since` is in the future. Nothing is claimed of the number.
#[verifier::external_body]
fn millis_since(since: &embassy_time::Instant) -> (ms: u64) {
    embassy_time::Instant::now().saturating_duration_since(*since).as_millis()
}

/// The clock of a loading episode.
pub struct LoadingClock {
    since: embassy_time::Instant,
}

impl LoadingClock {
    /// A clock that starts now.
    pub fn start() -> (c: LoadingClock) {
        LoadingClock { since: instant_now() }
    }

    /// Start again.
    pub fn restart(&mut self) {
        self.since = instant_now();
    }

    /// Milliseconds since the start.
    pub fn elapsed_ms(&self) -> (ms: u64) {
        millis_since(&self.since)
    }
}

} // verus!
