//! Verification that a money market instruction stands in the transaction.
//!
//! The check reads the record of what the transaction is going to execute. It moves
//! no funds: it decides whether the depositor's bookkeeping accepts a step as done.

use vstd::prelude::*;
use crate::error::EverlendError;
use crate::instruction::TransactionInstructions;
use crate::pubkey::Pubkey;

verus! {

/// Number of bytes in the payload of a money market instruction.
pub const AMOUNT_PAYLOAD_LEN: usize = 8;

/// The amount that a payload encodes: eight bytes, most significant first. A payload
/// of any other length encodes no amount.
pub open spec fn payload_amount(data: Seq<u8>) -> Option<u64> {
    if data.len() == 8 {
        Some(
            (data[0] * 0x0100_0000_0000_0000 + data[1] * 0x0001_0000_0000_0000 + data[2]
                * 0x0000_0100_0000_0000 + data[3] * 0x0000_0001_0000_0000 + data[4]
                * 0x0000_0000_0100_0000 + data[5] * 0x0000_0000_0001_0000 + data[6]
                * 0x0000_0000_0000_0100 + data[7]) as u64,
        )
    } else {
        None
    }
}

/// What the check of a payload yields: it passes where the payload encodes exactly the
/// expected amount, and only there.
pub open spec fn amount_check(data: Seq<u8>, expected_amount: u64) -> Result<(), EverlendError> {
    if payload_amount(data) == Some(expected_amount) {
        Ok(())
    } else {
        Err(EverlendError::WrongInstructionAmount)
    }
}

/// What the check of a money market instruction yields: the first failing test decides.
pub open spec fn deposit_check(
    current_index: u16,
    program_id: Pubkey,
    data: Seq<u8>,
    trusted_program_id: Pubkey,
    amount: u64,
) -> Result<(), EverlendError> {
    if current_index != 0 {
        Err(EverlendError::InvalidInstructionOrder)
    } else if program_id != trusted_program_id {
        Err(EverlendError::IncorrectInstructionProgramId)
    } else if payload_amount(data) != Some(amount) {
        Err(EverlendError::WrongInstructionAmount)
    } else {
        Ok(())
    }
}

/// Checks the money market instruction of a transaction to verify a deposit.
///
/// The verifying instruction must be the first of its transaction, the instruction
/// before it must target the trusted program of the money market, and its payload must
/// encode exactly `amount`.
pub fn check_deposit(
    instructions: &TransactionInstructions,
    money_market_program_id: &Pubkey,
    amount: u64,
) -> (result: Result<(), EverlendError>)
    ensures
        result == deposit_check(
            instructions.current_index,
            instructions.money_market_instruction.program_id,
            instructions.money_market_instruction.data@,
            *money_market_program_id,
            amount,
        ),
{
    // Instruction should be first in transaction
    if instructions.current_index != 0 {
        return Err(EverlendError::InvalidInstructionOrder);
    }
    // Check that instruction is money market instruction
    if instructions.money_market_instruction.program_id != *money_market_program_id {
        return Err(EverlendError::IncorrectInstructionProgramId);
    }
    check_amount_from_deposit_instruction(
        instructions.money_market_instruction.data.clone(),
        amount,
    )
}

/// Checks that the payload of a deposit instruction encodes the expected amount.
pub fn check_amount_from_deposit_instruction(
    instruction_data: Vec<u8>,
    expected_amount: u64,
) -> (result: Result<(), EverlendError>)
    ensures
        result == amount_check(instruction_data@, expected_amount),
{
    if instruction_data.len() != AMOUNT_PAYLOAD_LEN {
        return Err(EverlendError::WrongInstructionAmount);
    }
    let amount: u64 = (instruction_data[0] as u64) * 0x0100_0000_0000_0000
        + (instruction_data[1] as u64) * 0x0001_0000_0000_0000
        + (instruction_data[2] as u64) * 0x0000_0100_0000_0000
        + (instruction_data[3] as u64) * 0x0000_0001_0000_0000
        + (instruction_data[4] as u64) * 0x0000_0000_0100_0000
        + (instruction_data[5] as u64) * 0x0000_0000_0001_0000
        + (instruction_data[6] as u64) * 0x0000_0000_0000_0100
        + (instruction_data[7] as u64);
    if amount == expected_amount {
        Ok(())
    } else {
        Err(EverlendError::WrongInstructionAmount)
    }
}

} // verus!
