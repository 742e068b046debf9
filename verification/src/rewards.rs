//! The instructions of the rewards program and what each of them starts.

use vstd::prelude::*;
use crate::error::EverlendError;

verus! {

/// An instruction of the rewards program.
#[derive(Clone, Copy, Debug, PartialEq, Eq, Structural)]
pub enum RewardsInstruction {
    /// Creates a reward pool.
    InitializePool { lock_time_sec: u64 },
    /// Adds a vault to a reward pool.
    AddVault {
        ratio_base: u64,
        ratio_quote: u64,
        reward_period_sec: u32,
        distribution_starts_at: u64,
        reward_max_amount_per_period: u64,
    },
    /// Fills a vault with rewards.
    FillVault { amount: u64 },
    /// Deposits into the mining account of a user.
    DepositMining { amount: u64 },
    /// Withdraws from the mining account of a user.
    WithdrawMining,
    /// Claims rewards.
    Claim,
    /// Creates the root of the rewards.
    InitializeRoot,
    /// Migrates a reward pool.
    MigratePool,
}

/// The handler that an instruction starts, with its arguments.
#[derive(Clone, Copy, Debug, PartialEq, Eq, Structural)]
pub enum RewardsHandler {
    InitializePool { lock_time_sec: u64 },
    AddVault {
        ratio_base: u64,
        ratio_quote: u64,
        reward_period_sec: u32,
        distribution_starts_at: u64,
        reward_max_amount_per_period: u64,
    },
    FillVault { amount: u64 },
    DepositMining { amount: u64 },
    WithdrawMining,
    Claim,
    InitializeRoot,
}

/// The handler of each instruction. Migration of a pool has none.
pub open spec fn handler_of(instruction: RewardsInstruction) -> Result<RewardsHandler, EverlendError> {
    match instruction {
        RewardsInstruction::InitializePool { lock_time_sec } => Ok(
            RewardsHandler::InitializePool { lock_time_sec },
        ),
        RewardsInstruction::AddVault {
            ratio_base,
            ratio_quote,
            reward_period_sec,
            distribution_starts_at,
            reward_max_amount_per_period,
        } => Ok(
            RewardsHandler::AddVault {
                ratio_base,
                ratio_quote,
                reward_period_sec,
                distribution_starts_at,
                reward_max_amount_per_period,
            },
        ),
        RewardsInstruction::FillVault { amount } => Ok(RewardsHandler::FillVault { amount }),
        RewardsInstruction::DepositMining { amount } => Ok(RewardsHandler::DepositMining { amount }),
        RewardsInstruction::WithdrawMining => Ok(RewardsHandler::WithdrawMining),
        RewardsInstruction::Claim => Ok(RewardsHandler::Claim),
        RewardsInstruction::InitializeRoot => Ok(RewardsHandler::InitializeRoot),
        RewardsInstruction::MigratePool => Err(EverlendError::NotImplemented),
    }
}

/// Decides what an instruction starts: the handler of its kind with the arguments it
/// carries. Migration of a pool is not implemented and fails at once.
pub fn process_instruction(instruction: &RewardsInstruction) -> (result: Result<RewardsHandler, EverlendError>)
    ensures
        result == handler_of(*instruction),
{
    match *instruction {
        RewardsInstruction::InitializePool { lock_time_sec } => Ok(
            RewardsHandler::InitializePool { lock_time_sec },
        ),
        RewardsInstruction::AddVault {
            ratio_base,
            ratio_quote,
            reward_period_sec,
            distribution_starts_at,
            reward_max_amount_per_period,
        } => Ok(
            RewardsHandler::AddVault {
                ratio_base,
                ratio_quote,
                reward_period_sec,
                distribution_starts_at,
                reward_max_amount_per_period,
            },
        ),
        RewardsInstruction::FillVault { amount } => Ok(RewardsHandler::FillVault { amount }),
        RewardsInstruction::DepositMining { amount } => Ok(RewardsHandler::DepositMining { amount }),
        RewardsInstruction::WithdrawMining => Ok(RewardsHandler::WithdrawMining),
        RewardsInstruction::Claim => Ok(RewardsHandler::Claim),
        RewardsInstruction::InitializeRoot => Ok(RewardsHandler::InitializeRoot),
        RewardsInstruction::MigratePool => Err(EverlendError::NotImplemented),
    }
}

} // verus!
