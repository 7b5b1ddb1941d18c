use vstd::prelude::*;

verus! {

/// How the assistant answers a spoken or typed command.
#[derive(Debug, Clone, Copy, PartialEq, Eq, Structural)]
pub enum Decision {
    Execute,
    Clarify,
    Suggest,
    Reject,
}

/// The kind of automation write a plan performs.
#[derive(Debug, Clone, Copy, PartialEq, Eq, Structural)]
pub enum OperationClass {
    WriteNewCurve,
    SetFlatRange,
    TrimExistingRange,
}

/// The automation lane a target is written on.
#[derive(Debug, Clone, Copy, PartialEq, Eq, Structural)]
pub enum LaneKind {
    Volume,
    EqLowGain,
    EqPresenceGain,
    EqAirGain,
}

/// A range of bars, 1-based and inclusive.
#[derive(Debug, Clone, Copy, PartialEq, Eq, Structural)]
pub struct TimeRange {
    pub start_bar: u32,
    pub end_bar: u32,
}

impl TimeRange {
    pub open spec fn spec_is_valid(self) -> bool {
        self.start_bar > 0 && self.end_bar >= self.start_bar
    }

    pub fn is_valid(&self) -> (valid: bool)
        ensures
            valid == self.spec_is_valid(),
    {
        self.start_bar > 0 && self.end_bar >= self.start_bar
    }
}

} // verus!
