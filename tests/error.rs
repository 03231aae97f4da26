use stellar_save::error::{ContractResult, ErrorCategory, StellarSaveError};

#[test]
fn test_error_codes() {
    // Test that error codes match expected values
    assert_eq!(StellarSaveError::GroupNotFound.code(), 1001);
    assert_eq!(StellarSaveError::GroupFull.code(), 1002);
    assert_eq!(StellarSaveError::InvalidState.code(), 1003);
    
    assert_eq!(StellarSaveError::AlreadyMember.code(), 2001);
    assert_eq!(StellarSaveError::NotMember.code(), 2002);
    assert_eq!(StellarSaveError::Unauthorized.code(), 2003);
    
    assert_eq!(StellarSaveError::InvalidAmount.code(), 3001);
    assert_eq!(StellarSaveError::AlreadyContributed.code(), 3002);
    assert_eq!(StellarSaveError::CycleNotComplete.code(), 3003);
    
    assert_eq!(StellarSaveError::PayoutFailed.code(), 4001);
    assert_eq!(StellarSaveError::PayoutAlreadyProcessed.code(), 4002);
    assert_eq!(StellarSaveError::InvalidRecipient.code(), 4003);
    
    assert_eq!(StellarSaveError::InternalError.code(), 9001);
    assert_eq!(StellarSaveError::DataCorruption.code(), 9002);
}

#[test]
fn test_error_categories() {
    // Test error categorization
    assert_eq!(StellarSaveError::GroupNotFound.category(), ErrorCategory::Group);
    assert_eq!(StellarSaveError::GroupFull.category(), ErrorCategory::Group);
    
    assert_eq!(StellarSaveError::AlreadyMember.category(), ErrorCategory::Member);
    assert_eq!(StellarSaveError::NotMember.category(), ErrorCategory::Member);
    
    assert_eq!(StellarSaveError::InvalidAmount.category(), ErrorCategory::Contribution);
    assert_eq!(StellarSaveError::AlreadyContributed.category(), ErrorCategory::Contribution);
    
    assert_eq!(StellarSaveError::PayoutFailed.category(), ErrorCategory::Payout);
    assert_eq!(StellarSaveError::PayoutAlreadyProcessed.category(), ErrorCategory::Payout);
    
    assert_eq!(StellarSaveError::InternalError.category(), ErrorCategory::System);
    assert_eq!(StellarSaveError::DataCorruption.category(), ErrorCategory::System);
}

#[test]
fn test_error_messages() {
    // Test that all errors have non-empty messages
    let errors = [
        StellarSaveError::GroupNotFound,
        StellarSaveError::GroupFull,
        StellarSaveError::InvalidState,
        StellarSaveError::AlreadyMember,
        StellarSaveError::NotMember,
        StellarSaveError::Unauthorized,
        StellarSaveError::InvalidAmount,
        StellarSaveError::AlreadyContributed,
        StellarSaveError::CycleNotComplete,
        StellarSaveError::PayoutFailed,
        StellarSaveError::PayoutAlreadyProcessed,
        StellarSaveError::InvalidRecipient,
        StellarSaveError::InternalError,
        StellarSaveError::DataCorruption,
    ];

    for error in &errors {
        let message = error.message();
        assert!(!message.is_empty(), "Error {:?} has empty message", error);
        assert!(message.len() > 10, "Error {:?} has too short message", error);
    }
}

#[test]
fn test_error_ordering() {
    // Test that errors can be ordered (useful for sorting)
    assert!(StellarSaveError::GroupNotFound < StellarSaveError::GroupFull);
    assert!(StellarSaveError::AlreadyMember < StellarSaveError::NotMember);
    assert!(StellarSaveError::InvalidAmount < StellarSaveError::AlreadyContributed);
}

#[test]
fn test_contract_result_type() {
    // Test the ContractResult type alias
    let success: ContractResult<u32> = Ok(42);
    let failure: ContractResult<u32> = Err(StellarSaveError::GroupNotFound);
    
    assert!(success.is_ok());
    assert!(failure.is_err());
    
    match failure {
        Err(StellarSaveError::GroupNotFound) => {}, // Expected
        _ => panic!("Unexpected result"),
    }
}
