//! The error kinds that the registry's operations report.

use vstd::prelude::*;

verus! {

/// Every way in which an operation of the registry can refuse to act.
/// A refused operation leaves the registry exactly as it was.
#[derive(Debug, Clone, Copy, PartialEq, Eq, Structural)]
pub enum GuardianError {
    /// The caller is not the account whose guardians are being registered.
    NotOwner,
    /// Fewer than two guardians, or a guardian listed twice.
    InvalidGuardianSet,
    /// The threshold is zero or exceeds the number of guardians.
    InvalidThreshold,
    /// The account already has a guardian set.
    AlreadyInitialized,
    /// The account has no guardian set.
    NotInitialized,
    /// The account already has an open recovery session.
    RecoveryAlreadyActive,
    /// No session has the given identifier.
    SessionNotFound,
    /// The caller is not a guardian of the session's account.
    NotGuardian,
    /// The caller has already approved this session.
    AlreadyApproved,
    /// The session has not gathered enough approvals.
    ThresholdNotMet,
    /// Every session identifier has been issued.
    SessionIdsExhausted,
}

impl GuardianError {
    /// The numeric code under which the error is reported to a host
    /// as a user-defined error.
    pub open spec fn spec_code(self) -> u16 {
        match self {
            GuardianError::NotOwner => 1,
            GuardianError::AlreadyInitialized => 2,
            GuardianError::InvalidGuardianSet => 3,
            GuardianError::InvalidThreshold => 4,
            GuardianError::NotGuardian => 5,
            GuardianError::RecoveryAlreadyActive => 6,
            GuardianError::SessionNotFound => 7,
            GuardianError::AlreadyApproved => 8,
            GuardianError::ThresholdNotMet => 9,
            GuardianError::NotInitialized => 10,
            GuardianError::SessionIdsExhausted => 12,
        }
    }

    /// Returns the numeric code of this error; distinct errors have
    /// distinct codes.
    pub fn code(&self) -> (r: u16)
        ensures
            r == self.spec_code(),
    {
        match self {
            GuardianError::NotOwner => 1,
            GuardianError::AlreadyInitialized => 2,
            GuardianError::InvalidGuardianSet => 3,
            GuardianError::InvalidThreshold => 4,
            GuardianError::NotGuardian => 5,
            GuardianError::RecoveryAlreadyActive => 6,
            GuardianError::SessionNotFound => 7,
            GuardianError::AlreadyApproved => 8,
            GuardianError::ThresholdNotMet => 9,
            GuardianError::NotInitialized => 10,
            GuardianError::SessionIdsExhausted => 12,
        }
    }
}

} // verus!
