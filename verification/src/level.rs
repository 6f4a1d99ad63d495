//! Log severity levels and the threshold test applied before a record is
//! accepted.

use vstd::prelude::*;

verus! {

/// A log record's severity, from most verbose to most severe.
#[derive(Clone, Copy, PartialEq, Eq, Structural, Debug)]
pub enum Level {
    Trace,
    Debug,
    Info,
    Warn,
    Error,
}

impl Level {
    /// Numeric rank of a severity: higher means more severe.
    pub open spec fn rank(self) -> int {
        match self {
            Level::Trace => 0,
            Level::Debug => 1,
            Level::Info => 2,
            Level::Warn => 3,
            Level::Error => 4,
        }
    }

    /// Whether a record at severity `self` passes a sink configured with
    /// threshold `threshold`: it does exactly when it is at least as severe.
    pub fn passes(self, threshold: Level) -> (r: bool)
        ensures
            r == (self.rank() >= threshold.rank()),
    {
        let s = match self {
            Level::Trace => 0u8,
            Level::Debug => 1u8,
            Level::Info => 2u8,
            Level::Warn => 3u8,
            Level::Error => 4u8,
        };
        let t = match threshold {
            Level::Trace => 0u8,
            Level::Debug => 1u8,
            Level::Info => 2u8,
            Level::Warn => 3u8,
            Level::Error => 4u8,
        };
        s >= t
    }
}

} // verus!
