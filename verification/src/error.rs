//! The errors of credit-account operations.

use vstd::prelude::*;

use crate::coin::Coin;
use crate::math::DecimalMathError;
use crate::uint::{CheckedFromRatioError, CheckedMultiplyRatioError};

verus! {

/// Why an operation on a credit account failed.
#[derive(Clone, Debug, PartialEq, Eq)]
pub enum ContractError {
    /// Actions resulted in exceeding maximum allowed loan-to-value
    AboveMaxLTV,
    CheckedFromRatioError(CheckedFromRatioError),
    CheckedMultiply(CheckedMultiplyRatioError),
    DecimalMath(DecimalMathError),
    /// Callbacks cannot be invoked externally
    ExternalInvocation,
    /// Extra funds received
    ExtraFundsReceived(Vec<Coin>),
    /// Sent fund mismatch
    FundsMismatch { expected: u128, received: u128 },
    /// The vault configuration is not valid
    InvalidConfig { reason: String },
    /// No coin amount set for action
    NoAmount,
    /// No debt to repay
    NoDebt,
    /// Not enough funds for action
    NotEnoughFunds,
    NotEnoughShares { needed: u128, actual: u128 },
    /// The user does not have a position in this vault
    NoPosition(String),
    /// The position was not a valid position for this token id in this vault
    NoPositionMatch(String),
    NotTokenOwner { user: String, token_id: String },
    NotWhitelisted(String),
    /// An arithmetic operation overflowed
    Overflow,
    /// The reentrancy guard refused
    ReentrancyGuard(String),
    ReplyIdError(u64),
    RequirementsNotMet(String),
    Std(String),
    Unauthorized { user: String, action: String },
    /// There is more time left on the lock period for this unlocking position
    UnlockNotReady,
}

} // verus!

verus! {

/// A generic error with a message.
#[derive(Clone, Debug, PartialEq, Eq)]
pub enum StdError {
    GenericErr { msg: String },
}

} // verus!
