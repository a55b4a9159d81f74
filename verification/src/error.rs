//! The error surface of the ledger.
//!
//! Every fallible operation returns exactly one of these tags; no mutation is
//! ever applied on the failing path.

use vstd::prelude::*;

verus! {

/// One tagged error per failure class: structural/authorization errors first,
/// then the domain errors, then arithmetic.
#[derive(Clone, Copy, PartialEq, Eq, Structural, Debug)]
pub enum AccessError {
    /// The singleton account already holds valid data.
    AlreadyInitialized,
    /// A record's tag does not match the expected entity kind.
    DataTypeMismatch,
    /// The supplied system program account key is wrong.
    WrongSystemProgram,
    /// The supplied rent sysvar key is wrong.
    WrongRent,
    /// An account is owned by the wrong program.
    WrongOwner,
    /// A caller-supplied address does not match its recomputed derivation.
    AccountNotDeterministic,
    /// The target stake pool has not been activated.
    StakePoolNotActive,
    /// A first deposit is below the pool's minimum stake amount.
    StakeBelowMinimum,
    /// An unstake asks for more than the account holds.
    InsufficientStake,
    /// A bond claim asks for more than is currently vested.
    InsufficientVestedAmount,
    /// A counter would exceed its representable range.
    Overflow,
    /// A counter would fall below zero.
    Underflow,
}

impl AccessError {
    /// The human-readable message attached to this error tag.
    pub open spec fn spec_message(self) -> Seq<char> {
        match self {
            AccessError::AlreadyInitialized => "Error: This account is already initialized"@,
            AccessError::DataTypeMismatch => "Error: Data type mismatch"@,
            AccessError::WrongSystemProgram => "Error: Wrong system program key"@,
            AccessError::WrongRent => "Error: Wrong rent sysvar key"@,
            AccessError::WrongOwner => "Error: Wrong account owner"@,
            AccessError::AccountNotDeterministic => "Error: Account not generated deterministically"@,
            AccessError::StakePoolNotActive => "Error: Stake pool is not active"@,
            AccessError::StakeBelowMinimum => "Error: Stake amount is below the pool minimum"@,
            AccessError::InsufficientStake => "Error: Insufficient stake amount"@,
            AccessError::InsufficientVestedAmount => "Error: Insufficient vested amount"@,
            AccessError::Overflow => "Error: Arithmetic overflow"@,
            AccessError::Underflow => "Error: Arithmetic underflow"@,
        }
    }

    /// Renders the stable human-readable message for this error.
    pub fn message(&self) -> (r: String)
        ensures
            r@ == self.spec_message(),
    {
        match self {
            AccessError::AlreadyInitialized => String::from_str("Error: This account is already initialized"),
            AccessError::DataTypeMismatch => String::from_str("Error: Data type mismatch"),
            AccessError::WrongSystemProgram => String::from_str("Error: Wrong system program key"),
            AccessError::WrongRent => String::from_str("Error: Wrong rent sysvar key"),
            AccessError::WrongOwner => String::from_str("Error: Wrong account owner"),
            AccessError::AccountNotDeterministic => String::from_str("Error: Account not generated deterministically"),
            AccessError::StakePoolNotActive => String::from_str("Error: Stake pool is not active"),
            AccessError::StakeBelowMinimum => String::from_str("Error: Stake amount is below the pool minimum"),
            AccessError::InsufficientStake => String::from_str("Error: Insufficient stake amount"),
            AccessError::InsufficientVestedAmount => String::from_str("Error: Insufficient vested amount"),
            AccessError::Overflow => String::from_str("Error: Arithmetic overflow"),
            AccessError::Underflow => String::from_str("Error: Arithmetic underflow"),
        }
    }
}

} // verus!
