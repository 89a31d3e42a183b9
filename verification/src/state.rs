//! The permission state of a span and the transitions it can make.

use vstd::prelude::*;
use vstd::std_specs::convert::{FromSpecImpl, TryFromSpecImpl};

verus! {

/// Where a span stands with respect to the permission to print.
#[derive(PartialEq, Eq, Structural, Copy, Clone, Debug)]
pub enum SpanState {
    /// The span was entered, and whether it prints at all is not decided yet.
    SilentPeriod,
    /// The span holds the permission to print.
    PermissionAcquired,
    /// The span asked for the permission and did not get it.
    PermissionDenied,
    /// The span has the permission, and a child of it is using it.
    PermissionBorrowed,
    /// No thread is inside the span.
    Inactive,
}

impl SpanState {
    /// The numeric code under which a state is stored.
    pub open spec fn code(self) -> u32 {
        match self {
            SpanState::SilentPeriod => 0,
            SpanState::PermissionAcquired => 1,
            SpanState::PermissionDenied => 2,
            SpanState::PermissionBorrowed => 3,
            SpanState::Inactive => 4,
        }
    }

    /// The state with the given code, if there is one.
    pub open spec fn of_code(code: u32) -> Option<SpanState> {
        if code == 0 {
            Some(SpanState::SilentPeriod)
        } else if code == 1 {
            Some(SpanState::PermissionAcquired)
        } else if code == 2 {
            Some(SpanState::PermissionDenied)
        } else if code == 3 {
            Some(SpanState::PermissionBorrowed)
        } else if code == 4 {
            Some(SpanState::Inactive)
        } else {
            None
        }
    }

    /// The span has the permission, whether it uses it itself or a child does.
    pub open spec fn holds_permission(self) -> bool {
        self == SpanState::PermissionAcquired || self == SpanState::PermissionBorrowed
    }
}

impl TryFrom<u32> for SpanState {
    type Error = ();

    fn try_from(value: u32) -> (result: Result<Self, ()>) {
        match value {
            0 => Ok(SpanState::SilentPeriod),
            1 => Ok(SpanState::PermissionAcquired),
            2 => Ok(SpanState::PermissionDenied),
            3 => Ok(SpanState::PermissionBorrowed),
            4 => Ok(SpanState::Inactive),
            _ => Err(()),
        }
    }
}

impl TryFromSpecImpl<u32> for SpanState {
    open spec fn obeys_try_from_spec() -> bool {
        true
    }

    open spec fn try_from_spec(value: u32) -> Result<Self, ()> {
        match SpanState::of_code(value) {
            Some(state) => Ok(state),
            None => Err(()),
        }
    }
}

impl From<SpanState> for u32 {
    fn from(state: SpanState) -> (code: u32) {
        match state {
            SpanState::SilentPeriod => 0,
            SpanState::PermissionAcquired => 1,
            SpanState::PermissionDenied => 2,
            SpanState::PermissionBorrowed => 3,
            SpanState::Inactive => 4,
        }
    }
}

impl FromSpecImpl<SpanState> for u32 {
    open spec fn obeys_from_spec() -> bool {
        true
    }

    open spec fn from_spec(state: SpanState) -> u32 {
        state.code()
    }
}

/// The state cell of a span.
///
/// It holds the numeric code of a [`SpanState`]. Every method makes one transition as a whole;
/// the cell never shows a state in between.
///
/// State transitions:
///  - Inactive -> SilentPeriod: when entering a span (one span is only active in one thread)
///  - SilentPeriod -> PermissionAcquired: when borrowing permission from the parent span; queued
///    messages are always printed in this case
///  - SilentPeriod -> PermissionBorrowed: when borrowing permission from the parent span and
///    directly passing it to a child span; queued messages are always printed in this case
///  - SilentPeriod -> PermissionDenied: when failing to borrow permission from the parent span
///  - PermissionAcquired -> PermissionBorrowed: when a child span borrows permission
///  - PermissionBorrowed -> PermissionAcquired: when a child span returns permission
///  - PermissionAcquired | PermissionDenied | SilentPeriod -> Inactive: when leaving a span
pub struct AtomicSpanState {
    state: u32,
}

impl View for AtomicSpanState {
    type V = SpanState;

    closed spec fn view(&self) -> SpanState {
        SpanState::of_code(self.state).unwrap()
    }
}

impl AtomicSpanState {
    /// The stored code is the code of a state.
    pub closed spec fn wf(&self) -> bool {
        SpanState::of_code(self.state) is Some
    }

    /// The cell of a span that was never entered.
    pub fn new() -> (cell: Self)
        ensures
            cell.wf(),
            cell@ == SpanState::Inactive,
    {
        AtomicSpanState { state: u32::from(SpanState::Inactive) }
    }

    /// Stores `state` and hands back what was stored before.
    fn swap(&mut self, state: SpanState) -> (previous: SpanState)
        requires
            old(self).wf(),
        ensures
            final(self).wf(),
            final(self)@ == state,
            previous == old(self)@,
    {
        let previous = self.get();
        self.state = u32::from(state);
        previous
    }

    /// Starts the silent period of a span that is being entered.
    pub fn init(&mut self)
        requires
            old(self).wf(),
            old(self)@ == SpanState::Inactive,
        ensures
            final(self).wf(),
            final(self)@ == SpanState::SilentPeriod,
    {
        self.swap(SpanState::SilentPeriod);
    }

    /// Makes the span inactive and returns the state that it was left in.
    pub fn reset(&mut self) -> (previous: SpanState)
        requires
            old(self).wf(),
        ensures
            final(self).wf(),
            final(self)@ == SpanState::Inactive,
            previous == old(self)@,
    {
        self.swap(SpanState::Inactive)
    }

    /// The current state.
    pub fn get(&self) -> (state: SpanState)
        requires
            self.wf(),
        ensures
            state == self@,
    {
        match SpanState::try_from(self.state) {
            Ok(state) => state,
            Err(_) => SpanState::Inactive,
        }
    }

    /// Gives the permission to an active span, whatever became of an earlier request.
    pub fn give_permission(&mut self)
        requires
            old(self).wf(),
            old(self)@ != SpanState::Inactive,
        ensures
            final(self).wf(),
            final(self)@ == SpanState::PermissionAcquired,
    {
        self.swap(SpanState::PermissionAcquired);
    }

    /// Gives the permission to an active span, which passes it on to a child at once.
    pub fn give_and_borrow_permission(&mut self)
        requires
            old(self).wf(),
            old(self)@ != SpanState::Inactive,
        ensures
            final(self).wf(),
            final(self)@ == SpanState::PermissionBorrowed,
    {
        self.swap(SpanState::PermissionBorrowed);
    }

    /// Denies the permission to a span that is still in its silent period. A span about which
    /// something was decided already keeps its state.
    pub fn deny_permission(&mut self)
        requires
            old(self).wf(),
            old(self)@ != SpanState::Inactive,
        ensures
            final(self).wf(),
            final(self)@ == (if old(self)@ == SpanState::SilentPeriod {
                SpanState::PermissionDenied
            } else {
                old(self)@
            }),
    {
        if self.get() == SpanState::SilentPeriod {
            self.swap(SpanState::PermissionDenied);
        }
    }

    /// Lends the permission to a child, if the span has it and does not lend it already.
    pub fn borrow_permission(&mut self) -> (lent: bool)
        requires
            old(self).wf(),
            old(self)@ != SpanState::SilentPeriod,
            old(self)@ != SpanState::Inactive,
        ensures
            final(self).wf(),
            lent == (old(self)@ == SpanState::PermissionAcquired),
            final(self)@ == (if lent {
                SpanState::PermissionBorrowed
            } else {
                old(self)@
            }),
    {
        if self.get() == SpanState::PermissionAcquired {
            self.swap(SpanState::PermissionBorrowed);
            true
        } else {
            false
        }
    }

    /// Takes back the permission that a child had borrowed.
    pub fn return_permission(&mut self)
        requires
            old(self).wf(),
            old(self)@ == SpanState::PermissionBorrowed,
        ensures
            final(self).wf(),
            final(self)@ == SpanState::PermissionAcquired,
    {
        self.swap(SpanState::PermissionAcquired);
    }
}

} // verus!
