//! Pacing of the tick and frame loops.
use vstd::prelude::*;
use std::time::{Duration, Instant};

verus! {

/// `std::time::Instant`, carried through as an opaque value.
#[verifier::external_type_specification]
#[verifier::external_body]
pub struct ExInstant(std::time::Instant);

/// Relies on `std::time::Instant::now` to read the monotonic clock; nothing
/// is promised of the value.
pub assume_specification[ std::time::Instant::now ]() -> std::time::Instant;

/// Caps the rate of a loop: each tick lasts at least `frame_time`.
#[derive(Clone, Copy)]
pub struct Ticker {
    /// The shortest duration of one tick.
    pub frame_time: Duration,
}

/// Creates a [`Ticker`] whose ticks last at least `frame_time`.
pub fn ticker(frame_time: Duration) -> (r: Ticker)
    ensures
        r.frame_time == frame_time,
{
    Ticker { frame_time }
}

impl Ticker {
    /// Starts one tick now; waiting on it lets the rest of `frame_time` pass.
    pub fn start(self) -> (r: Tick)
        ensures
            r.frame_time == self.frame_time,
    {
        Tick { frame_time: self.frame_time, start: Instant::now() }
    }
}

/// One running tick.
pub struct Tick {
    /// The shortest duration of the tick.
    pub frame_time: Duration,
    /// When the tick started.
    pub start: Instant,
}

} // verus!
