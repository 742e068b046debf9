//! The errors of the library.

use vstd::prelude::*;

verus! {

/// Why an operation was refused. A refused operation changes nothing.
#[derive(Clone, Copy, Debug, PartialEq, Eq, Structural)]
pub enum EverlendError {
    /// An account is not owned by the program that the operation belongs to, or the
    /// caller is not the owner of the record it wants to act on.
    InvalidAccountOwner,
    /// An argument names another pool, market, mint or manager than the records do.
    InvalidArgument,
    /// An account does not hold a record of the kind that the operation needs.
    InvalidAccountData,
    /// The record was initialized before.
    AccountAlreadyInitialized,
    /// The record was never initialized.
    UninitializedAccount,
    /// No record exists under the given id.
    AccountNotFound,
    /// Not enough liquidity for the operation; it can be tried again later.
    InsufficientFunds,
    /// A borrow authority asked for more than its share of the pool.
    AmountAllowedCheckFailed,
    /// An amount does not fit in 64 bits.
    MathOverflow,
    /// The percentages of a distribution add up to more than the whole, or an entry
    /// names a money market that the registry does not trust.
    InvalidDistribution,
    /// The verifying instruction is not the first one of its transaction.
    InvalidInstructionOrder,
    /// The money market instruction targets another program than the trusted one.
    IncorrectInstructionProgramId,
    /// The money market instruction carries another amount than the expected one.
    WrongInstructionAmount,
    /// The rebalancing has no step left to execute.
    InvalidRebalancingOperation,
    /// The operation is not implemented.
    NotImplemented,
}

} // verus!
