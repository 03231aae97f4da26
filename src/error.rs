use vstd::prelude::*;

verus! {

/// Errors reported by the engine, partitioned by the entity they concern.
#[derive(Clone, Copy, Debug, PartialEq, Eq, Structural, PartialOrd, Ord, Hash)]
pub enum StellarSaveError {
    GroupNotFound,
    GroupFull,
    InvalidState,
    AlreadyMember,
    NotMember,
    Unauthorized,
    InvalidAmount,
    AlreadyContributed,
    CycleNotComplete,
    PayoutFailed,
    PayoutAlreadyProcessed,
    InvalidRecipient,
    InternalError,
    DataCorruption,
    Overflow,
}

/// The range an error code falls in.
#[derive(Clone, Copy, Debug, PartialEq, Eq, Structural)]
pub enum ErrorCategory {
    Group,
    Member,
    Contribution,
    Payout,
    System,
    Unknown,
}

/// Result of an engine operation.
pub type ContractResult<T> = Result<T, StellarSaveError>;

/// The stable numeric code of each error.
pub open spec fn error_code(e: StellarSaveError) -> u32 {
    match e {
        StellarSaveError::GroupNotFound => 1001,
        StellarSaveError::GroupFull => 1002,
        StellarSaveError::InvalidState => 1003,
        StellarSaveError::AlreadyMember => 2001,
        StellarSaveError::NotMember => 2002,
        StellarSaveError::Unauthorized => 2003,
        StellarSaveError::InvalidAmount => 3001,
        StellarSaveError::AlreadyContributed => 3002,
        StellarSaveError::CycleNotComplete => 3003,
        StellarSaveError::PayoutFailed => 4001,
        StellarSaveError::PayoutAlreadyProcessed => 4002,
        StellarSaveError::InvalidRecipient => 4003,
        StellarSaveError::InternalError => 9001,
        StellarSaveError::DataCorruption => 9002,
        StellarSaveError::Overflow => 9003,
    }
}

/// The category that a code range stands for.
pub open spec fn category_of_code(code: u32) -> ErrorCategory {
    if 1000 <= code <= 1999 {
        ErrorCategory::Group
    } else if 2000 <= code <= 2999 {
        ErrorCategory::Member
    } else if 3000 <= code <= 3999 {
        ErrorCategory::Contribution
    } else if 4000 <= code <= 4999 {
        ErrorCategory::Payout
    } else if 9000 <= code <= 9999 {
        ErrorCategory::System
    } else {
        ErrorCategory::Unknown
    }
}

impl StellarSaveError {
    /// A human-readable explanation of the error.
    pub fn message(&self) -> (r: &'static str)
        ensures
            r@.len() > 10,
    {
        match self {
            StellarSaveError::GroupNotFound => {
                proof { reveal_strlit("The specified group does not exist. Please verify the group ID."); }
                "The specified group does not exist. Please verify the group ID."
            },
            StellarSaveError::GroupFull => {
                proof { reveal_strlit("The group has reached its maximum member capacity. No new members can join."); }
                "The group has reached its maximum member capacity. No new members can join."
            },
            StellarSaveError::InvalidState => {
                proof { reveal_strlit("The group is not in a valid state for this operation. Check group status."); }
                "The group is not in a valid state for this operation. Check group status."
            },
            StellarSaveError::AlreadyMember => {
                proof { reveal_strlit("This address is already a member of the group."); }
                "This address is already a member of the group."
            },
            StellarSaveError::NotMember => {
                proof { reveal_strlit("This address is not a member of the group. Only members can perform this action."); }
                "This address is not a member of the group. Only members can perform this action."
            },
            StellarSaveError::Unauthorized => {
                proof { reveal_strlit("You are not authorized to perform this operation. Check permissions."); }
                "You are not authorized to perform this operation. Check permissions."
            },
            StellarSaveError::InvalidAmount => {
                proof { reveal_strlit("The contribution amount is invalid. Must be positive and match group requirements."); }
                "The contribution amount is invalid. Must be positive and match group requirements."
            },
            StellarSaveError::AlreadyContributed => {
                proof { reveal_strlit("You have already contributed for the current cycle. Wait for the next cycle."); }
                "You have already contributed for the current cycle. Wait for the next cycle."
            },
            StellarSaveError::CycleNotComplete => {
                proof { reveal_strlit("The current cycle is not complete. All members must contribute before payout."); }
                "The current cycle is not complete. All members must contribute before payout."
            },
            StellarSaveError::PayoutFailed => {
                proof { reveal_strlit("The payout operation failed. This may be due to insufficient contract funds or transfer restrictions."); }
                "The payout operation failed. This may be due to insufficient contract funds or transfer restrictions."
            },
            StellarSaveError::PayoutAlreadyProcessed => {
                proof { reveal_strlit("The payout has already been processed for this cycle."); }
                "The payout has already been processed for this cycle."
            },
            StellarSaveError::InvalidRecipient => {
                proof { reveal_strlit("The specified recipient is not eligible for payout in this cycle."); }
                "The specified recipient is not eligible for payout in this cycle."
            },
            StellarSaveError::InternalError => {
                proof { reveal_strlit("An internal contract error occurred. Please try again or contact support."); }
                "An internal contract error occurred. Please try again or contact support."
            },
            StellarSaveError::DataCorruption => {
                proof { reveal_strlit("Contract data appears to be corrupted. This is a critical error."); }
                "Contract data appears to be corrupted. This is a critical error."
            },
            StellarSaveError::Overflow => {
                proof { reveal_strlit("An arithmetic operation overflowed its integer range."); }
                "An arithmetic operation overflowed its integer range."
            },
        }
    }

    /// The stable numeric code of this error.
    pub fn code(&self) -> (r: u32)
        ensures
            r == error_code(*self),
    {
        match self {
            StellarSaveError::GroupNotFound => 1001,
            StellarSaveError::GroupFull => 1002,
            StellarSaveError::InvalidState => 1003,
            StellarSaveError::AlreadyMember => 2001,
            StellarSaveError::NotMember => 2002,
            StellarSaveError::Unauthorized => 2003,
            StellarSaveError::InvalidAmount => 3001,
            StellarSaveError::AlreadyContributed => 3002,
            StellarSaveError::CycleNotComplete => 3003,
            StellarSaveError::PayoutFailed => 4001,
            StellarSaveError::PayoutAlreadyProcessed => 4002,
            StellarSaveError::InvalidRecipient => 4003,
            StellarSaveError::InternalError => 9001,
            StellarSaveError::DataCorruption => 9002,
            StellarSaveError::Overflow => 9003,
        }
    }

    /// The category given by the range of this error's code.
    pub fn category(&self) -> (r: ErrorCategory)
        ensures
            r == category_of_code(error_code(*self)),
    {
        let code = self.code();
        if 1000 <= code && code <= 1999 {
            ErrorCategory::Group
        } else if 2000 <= code && code <= 2999 {
            ErrorCategory::Member
        } else if 3000 <= code && code <= 3999 {
            ErrorCategory::Contribution
        } else if 4000 <= code && code <= 4999 {
            ErrorCategory::Payout
        } else if 9000 <= code && code <= 9999 {
            ErrorCategory::System
        } else {
            ErrorCategory::Unknown
        }
    }
}

} // verus!
