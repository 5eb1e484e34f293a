//! A stopwatch for laps, and the text form of a lap.

use crate::text::{decimal, decimal_of};
use std::time::{Duration, Instant};
use vstd::prelude::*;
use vstd::string::*;

verus! {

/// A point in time of `std::time`, carried through as it is: nothing
/// inside it is seen here.
#[verifier::external_type_specification]
#[verifier::external_body]
pub struct ExInstant(Instant);

/// Calls `Instant::now`. The result depends on the clock: nothing is
/// claimed of it.
#[verifier::external_body]
fn now() -> (instant: Instant) {
    Instant::now()
}

/// Calls `Instant::elapsed`. The result depends on the clock: nothing is
/// claimed of it.
#[verifier::external_body]
fn elapsed_since(start: &Instant) -> (span: Duration) {
    start.elapsed()
}

/// Calls `Duration::as_nanos`: the whole span in nanoseconds. The span is
/// opaque here, so nothing is claimed of the number.
#[verifier::external_body]
fn nanos_of(span: &Duration) -> (nanos: u128) {
    span.as_nanos()
}

/// The text of a lap of the given length: in nanoseconds up to four digits,
/// in whole microseconds up to seven digits of nanoseconds, in whole
/// milliseconds up to ten, in whole seconds beyond.
pub open spec fn lap_text(nanos: nat) -> Seq<char> {
    if nanos < 10_000 {
        decimal_of(nanos) + " ns"@
    } else if nanos < 10_000_000 {
        decimal_of(nanos / 1_000) + " μs"@
    } else if nanos < 10_000_000_000 {
        decimal_of(nanos / 1_000_000) + " ms"@
    } else {
        decimal_of(nanos / 1_000_000_000) + " s"@
    }
}

/// The text of a lap of the given length in nanoseconds.
pub fn format_lap(nanos: u128) -> (text: String)
    ensures
        text@ == lap_text(nanos as nat),
{
    if nanos < 10_000 {
        let mut text = decimal(nanos);
        text.append(" ns");
        text
    } else if nanos < 10_000_000 {
        let mut text = decimal(nanos / 1_000);
        text.append(" μs");
        text
    } else if nanos < 10_000_000_000 {
        let mut text = decimal(nanos / 1_000_000);
        text.append(" ms");
        text
    } else {
        let mut text = decimal(nanos / 1_000_000_000);
        text.append(" s");
        text
    }
}

/// A stopwatch: each lap runs from the end of the one before.
pub struct Timer {
    start: Instant,
}

impl Timer {
    /// A stopwatch that starts now.
    pub fn new() -> (timer: Timer) {
        Timer { start: now() }
    }

    /// Ends the lap and starts the next one. Returns the text of the time
    /// that the lap took.
    pub fn lap(&mut self) -> (text: String)
        ensures
            exists|nanos: nat| text@ == #[trigger] lap_text(nanos),
    {
        let elapsed = elapsed_since(&self.start);
        self.start = now();
        format_lap(nanos_of(&elapsed))
    }
}

} // verus!
