//! Instructions of a transaction, as far as the library reads or builds them.

use vstd::prelude::*;
use crate::pubkey::Pubkey;

verus! {

/// One instruction of a transaction.
#[derive(Clone, Debug)]
pub struct Instruction {
    /// Program that executes the instruction.
    pub program_id: Pubkey,
    /// Accounts that the instruction names.
    pub accounts: Vec<Pubkey>,
    /// Payload of the instruction.
    pub data: Vec<u8>,
}

/// What a verification reads from the instruction list of the transaction it runs in.
#[derive(Clone, Debug)]
pub struct TransactionInstructions {
    /// Position of the verifying instruction in the transaction.
    pub current_index: u16,
    /// The instruction that stands immediately before the verifying one, as the host
    /// loaded it from the instruction list.
    pub money_market_instruction: Instruction,
}

} // verus!
