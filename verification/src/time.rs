//! Spans of time, counted in microseconds.

use vstd::prelude::*;

verus! {

/// A relative amount of time, with microsecond precision.
#[derive(Debug, Clone, Copy, PartialEq, Eq, PartialOrd, Ord, Hash, Default, Structural)]
pub struct Duration {
    micros: u64,
}

impl Duration {
    /// The number of microseconds the span lasts.
    pub closed spec fn micros(self) -> u64 {
        self.micros
    }

    /// The span of `micros` microseconds.
    pub closed spec fn spec_from_micros(micros: u64) -> Duration {
        Duration { micros }
    }

    /// The number of whole milliseconds the span lasts.
    pub open spec fn millis_spec(self) -> u64 {
        (self.micros() / 1000) as u64
    }

    /// A span is determined by its microseconds.
    pub proof fn lemma_micros(d: Duration)
        ensures
            Duration::spec_from_micros(d.micros()) == d,
    {
    }

    /// The span built from a count of microseconds has that count.
    pub proof fn lemma_from_micros(micros: u64)
        ensures
            Duration::spec_from_micros(micros).micros() == micros,
    {
    }

    /// Create a new `Duration` from a number of microseconds.
    pub fn from_micros(micros: u64) -> (r: Duration)
        ensures
            r.micros() == micros,
    {
        Duration { micros }
    }

    /// Create a new `Duration` from a number of milliseconds.
    pub fn from_millis(millis: u64) -> (r: Duration)
        requires
            millis * 1000 <= u64::MAX,
        ensures
            r.micros() == millis * 1000,
    {
        Duration { micros: millis * 1000 }
    }

    /// Create a new `Duration` from a number of seconds.
    pub fn from_secs(secs: u64) -> (r: Duration)
        requires
            secs * 1000000 <= u64::MAX,
        ensures
            r.micros() == secs * 1000000,
    {
        Duration { micros: secs * 1000000 }
    }

    /// The number of whole seconds in this `Duration`.
    pub fn secs(&self) -> (r: u64)
        ensures
            r == self.micros() / 1000000,
    {
        self.micros / 1000000
    }

    /// The total number of milliseconds in this `Duration`.
    pub fn total_millis(&self) -> (r: u64)
        ensures
            r == self.millis_spec(),
    {
        self.micros / 1000
    }

    /// The total number of microseconds in this `Duration`.
    pub fn total_micros(&self) -> (r: u64)
        ensures
            r == self.micros(),
    {
        self.micros
    }
}

} // verus!
