//! The depositor: it moves liquidity between a pool and the money markets, through
//! transit accounts that only its program-derived authority controls.

use vstd::prelude::*;
use vstd::string::*;
use crate::pubkey::{address_view, program_address, try_find_program_address, Pubkey, MAX_SEED_LEN};

pub mod mm;
pub mod rebalancing;
pub mod state;

verus! {

/// Finds the authority of `pubkey` under the program, with its bump seed.
///
/// The only seed is the address itself. `None` where the runtime finds no address.
pub fn find_program_address(program_id: &Pubkey, pubkey: &Pubkey) -> (found: Option<(Pubkey, u8)>)
    ensures
        address_view(found) == program_address(seq![pubkey@], program_id@),
{
    let mut seeds: Vec<Vec<u8>> = Vec::new();
    seeds.push(pubkey.to_seed());
    proof {
        assert(crate::pubkey::seeds_view(seeds@) =~= seq![pubkey@]);
    }
    try_find_program_address(&seeds, program_id)
}

/// Finds the transit account of a depositor for a token mint, with its bump seed.
///
/// The seeds are the depositor's address, then the mint's. `None` where the runtime
/// finds no address.
pub fn find_transit_program_address(
    program_id: &Pubkey,
    depositor: &Pubkey,
    token_mint: &Pubkey,
) -> (found: Option<(Pubkey, u8)>)
    ensures
        address_view(found) == program_address(seq![depositor@, token_mint@], program_id@),
{
    let mut seeds: Vec<Vec<u8>> = Vec::new();
    seeds.push(depositor.to_seed());
    seeds.push(token_mint.to_seed());
    proof {
        assert(crate::pubkey::seeds_view(seeds@) =~= seq![depositor@, token_mint@]);
    }
    try_find_program_address(&seeds, program_id)
}

/// Finds the labelled transit account of a depositor for a token mint, such as its
/// `"reserve"`, with its bump seed.
///
/// The seeds are the bytes of the label, then the depositor's address, then the
/// mint's. `None` where the runtime finds no address, as for a label of more than
/// 32 bytes.
pub fn find_labelled_transit_program_address(
    program_id: &Pubkey,
    depositor: &Pubkey,
    token_mint: &Pubkey,
    label: &str,
) -> (found: Option<(Pubkey, u8)>)
    ensures
        address_view(found) == program_address(
            seq![label.spec_bytes(), depositor@, token_mint@],
            program_id@,
        ),
        label.spec_bytes().len() > MAX_SEED_LEN ==> found is None,
{
    let mut seeds: Vec<Vec<u8>> = Vec::new();
    seeds.push(label.as_bytes_vec());
    seeds.push(depositor.to_seed());
    seeds.push(token_mint.to_seed());
    proof {
        assert(crate::pubkey::seeds_view(seeds@) =~= seq![
            label.spec_bytes(),
            depositor@,
            token_mint@,
        ]);
        assert(seeds@[0]@ == label.spec_bytes());
    }
    try_find_program_address(&seeds, program_id)
}

} // verus!
