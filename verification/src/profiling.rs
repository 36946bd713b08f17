//! Lightweight timing of code spans.

use std::time::{Duration, Instant};
use vstd::prelude::*;

verus! {

#[verifier::external_type_specification]
#[verifier::external_body]
pub struct ExInstant(Instant);

/// Calls `std::time::Instant::now`. The result is the clock's current reading;
/// nothing is claimed of it.
#[verifier::external_body]
fn instant_now() -> Instant {
    Instant::now()
}

/// Calls `std::time::Instant::elapsed` on `start`. The result is the time that has
/// passed since `start` was taken; nothing is claimed of it.
#[verifier::external_body]
fn instant_elapsed(start: &Instant) -> Duration {
    start.elapsed()
}

/// Records a span of time for diagnostic purposes.
#[derive(Debug)]
pub struct SpanTimer {
    label: &'static str,
    start: Instant,
}

impl SpanTimer {
    /// The span's label.
    pub closed spec fn label(&self) -> Seq<char> {
        self.label@
    }

    /// Starts a span named `label` now.
    pub fn new(label: &'static str) -> (t: Self)
        ensures
            t.label() == label@,
    {
        SpanTimer { label, start: instant_now() }
    }

    /// Ends the span and returns how long it lasted.
    pub fn finish(self) -> Duration {
        instant_elapsed(&self.start)
    }
}

} // verus!
