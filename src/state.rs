use vstd::prelude::*;

verus! {

/// Where a validator stands with respect to the active set.
#[derive(Debug, Clone, Copy, PartialEq, Eq, Structural)]
pub enum ValidatorState {
    Unknown,
    ActiveConsensusSet,
    ActiveBelowCapacitySet,
    ActiveBelowThresholdSet,
    Jailed,
    Inactive,
}

/// The integer under which a state is published.
pub open spec fn state_code(s: ValidatorState) -> u8 {
    match s {
        ValidatorState::Unknown => 0,
        ValidatorState::ActiveConsensusSet => 1,
        ValidatorState::ActiveBelowCapacitySet => 2,
        ValidatorState::ActiveBelowThresholdSet => 3,
        ValidatorState::Jailed => 4,
        ValidatorState::Inactive => 5,
    }
}

impl ValidatorState {
    pub fn number(&self) -> (r: u8)
        ensures
            r == state_code(*self),
    {
        match self {
            ValidatorState::Unknown => 0,
            ValidatorState::ActiveConsensusSet => 1,
            ValidatorState::ActiveBelowCapacitySet => 2,
            ValidatorState::ActiveBelowThresholdSet => 3,
            ValidatorState::Jailed => 4,
            ValidatorState::Inactive => 5,
        }
    }
}

} // verus!
