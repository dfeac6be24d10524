//! The five severities of a log record, and how urgent each is.

use vstd::prelude::*;

verus! {

/// How urgent a log record is. `Error` is the most urgent, `Trace` the least.
#[derive(Debug, Clone, Copy, PartialEq, Eq, Hash, Structural)]
pub enum Level {
    Error,
    Warn,
    Info,
    Debug,
    Trace,
}

impl Level {
    /// The position of the level in the order from most to least urgent:
    /// the smaller, the more urgent.
    pub open spec fn spec_rank(&self) -> u8 {
        match self {
            Level::Error => 1,
            Level::Warn => 2,
            Level::Info => 3,
            Level::Debug => 4,
            Level::Trace => 5,
        }
    }

    /// The position of the level in the order from most to least urgent.
    #[verifier::when_used_as_spec(spec_rank)]
    pub fn rank(&self) -> (rank: u8)
        ensures
            rank == self.spec_rank(),
    {
        match self {
            Level::Error => 1,
            Level::Warn => 2,
            Level::Info => 3,
            Level::Debug => 4,
            Level::Trace => 5,
        }
    }

    /// Whether a filter set to `self` lets a record of level `candidate`
    /// through: it does when the record is at least as urgent as the filter.
    pub open spec fn spec_admits(&self, candidate: Level) -> bool {
        candidate.rank() <= self.rank()
    }

    /// Whether a filter set to `self` lets a record of level `candidate`
    /// through.
    #[verifier::when_used_as_spec(spec_admits)]
    pub fn admits(&self, candidate: Level) -> (pass: bool)
        ensures
            pass == self.spec_admits(candidate),
    {
        candidate.rank() <= self.rank()
    }
}

} // verus!
