//! Request latency as the logging layer reports it.
//!
//! A measured duration is carried as a plain count of microseconds; the
//! logging layer itself (and the clock behind it) stays outside the
//! library and hands the figure in.

use vstd::prelude::*;

verus! {

/// A measured request latency, in microseconds.
#[derive(Clone, Copy, Debug, PartialEq, Eq, Structural)]
pub struct Latency {
    pub micros: u64,
}

impl Latency {
    pub fn new(micros: u64) -> (r: Latency)
        ensures
            r.micros == micros,
    {
        Latency { micros }
    }

    /// The figure a latency is reported with: whole milliseconds once there
    /// is at least one, microseconds below that. The second component says
    /// which unit the figure is in (true for milliseconds).
    pub fn figure(&self) -> (r: (u64, bool))
        ensures
            r == if self.micros >= 1000 {
                ((self.micros / 1000) as u64, true)
            } else {
                (self.micros, false)
            },
    {
        if self.micros >= 1000 {
            (self.micros / 1000, true)
        } else {
            (self.micros, false)
        }
    }
}

} // verus!
