use stake_ledger::error::AccessError;

#[test]
fn structural_error_messages_are_stable() {
    assert_eq!(
        AccessError::AlreadyInitialized.message(),
        "Error: This account is already initialized"
    );
    assert_eq!(AccessError::DataTypeMismatch.message(), "Error: Data type mismatch");
    assert_eq!(AccessError::WrongSystemProgram.message(), "Error: Wrong system program key");
    assert_eq!(AccessError::WrongRent.message(), "Error: Wrong rent sysvar key");
    assert_eq!(AccessError::WrongOwner.message(), "Error: Wrong account owner");
    assert_eq!(
        AccessError::AccountNotDeterministic.message(),
        "Error: Account not generated deterministically"
    );
}

#[test]
fn domain_error_messages_are_stable() {
    assert_eq!(AccessError::StakePoolNotActive.message(), "Error: Stake pool is not active");
    assert_eq!(
        AccessError::StakeBelowMinimum.message(),
        "Error: Stake amount is below the pool minimum"
    );
    assert_eq!(AccessError::InsufficientStake.message(), "Error: Insufficient stake amount");
    assert_eq!(
        AccessError::InsufficientVestedAmount.message(),
        "Error: Insufficient vested amount"
    );
    assert_eq!(AccessError::Overflow.message(), "Error: Arithmetic overflow");
    assert_eq!(AccessError::Underflow.message(), "Error: Arithmetic underflow");
}
