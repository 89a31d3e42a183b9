//! The verbosity of spans and events.

use std::cmp::Ordering;
use std::ops::RangeInclusive;
use vstd::prelude::*;
use vstd::std_specs::cmp::PartialOrdSpecImpl;
use vstd::std_specs::range::RangeInclusiveView;

verus! {

/// The verbosity of a span or an event. A more verbose level is greater than a less verbose one.
#[derive(PartialEq, Eq, Structural, Copy, Clone, Debug)]
pub enum Level {
    /// Very serious errors.
    Error,
    /// Hazardous situations.
    Warn,
    /// Useful information.
    Info,
    /// Lower priority information.
    Debug,
    /// Very low priority, often extremely verbose, information.
    Trace,
}

impl Level {
    /// The position of the level in the order of verbosity.
    pub open spec fn rank(self) -> int {
        match self {
            Level::Error => 1,
            Level::Warn => 2,
            Level::Info => 3,
            Level::Debug => 4,
            Level::Trace => 5,
        }
    }

    /// The position of the level in the order of verbosity.
    pub fn verbosity(&self) -> (rank: u8)
        ensures
            rank == self.rank(),
    {
        match self {
            Level::Error => 1,
            Level::Warn => 2,
            Level::Info => 3,
            Level::Debug => 4,
            Level::Trace => 5,
        }
    }
}

impl PartialOrd for Level {
    fn partial_cmp(&self, other: &Self) -> (order: Option<Ordering>) {
        let a = self.verbosity();
        let b = other.verbosity();
        if a < b {
            Some(Ordering::Less)
        } else if a == b {
            Some(Ordering::Equal)
        } else {
            Some(Ordering::Greater)
        }
    }
}

impl PartialOrdSpecImpl for Level {
    open spec fn obeys_partial_cmp_spec() -> bool {
        true
    }

    open spec fn partial_cmp_spec(&self, other: &Self) -> Option<Ordering> {
        if self.rank() < other.rank() {
            Some(Ordering::Less)
        } else if self.rank() == other.rank() {
            Some(Ordering::Equal)
        } else {
            Some(Ordering::Greater)
        }
    }
}

/// The level lies within the range.
pub open spec fn within(levels: RangeInclusiveView<Level>, level: Level) -> bool {
    &&& levels.start.rank() <= level.rank()
    &&& if levels.exhausted {
        level.rank() < levels.end.rank()
    } else {
        level.rank() <= levels.end.rank()
    }
}

/// Whether the level lies within the range.
pub fn is_within(levels: &RangeInclusive<Level>, level: Level) -> (inside: bool)
    ensures
        inside == within(levels@, level),
{
    levels.contains(&level)
}

} // verus!
