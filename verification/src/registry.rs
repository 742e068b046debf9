//! The registry of trusted money market programs.

use vstd::prelude::*;
use crate::pubkey::Pubkey;

verus! {

/// Number of money markets that a registry, a distribution and a rebalancing have
/// room for.
pub const TOTAL_DISTRIBUTIONS: usize = 10;

/// The programs of the money markets that the protocol trusts, each at the index of
/// its money market. A slot that holds the default address is empty.
#[derive(Clone, Copy, Debug)]
pub struct RegistryPrograms {
    /// Program of each money market, by the index of the market.
    pub money_market_program_ids: [Pubkey; TOTAL_DISTRIBUTIONS],
}

impl RegistryPrograms {
    /// Whether the registry lists the program as that of a money market.
    pub open spec fn trusts(self, program_id: Pubkey) -> bool {
        &&& program_id != Pubkey::zero()
        &&& exists|i: int|
            0 <= i < TOTAL_DISTRIBUTIONS && #[trigger] self.money_market_program_ids@[i]
                == program_id
    }

    /// Whether `index` is the first slot of the registry that holds the program.
    pub open spec fn is_index_of(self, index: int, program_id: Pubkey) -> bool {
        &&& 0 <= index < TOTAL_DISTRIBUTIONS
        &&& program_id != Pubkey::zero()
        &&& self.money_market_program_ids@[index] == program_id
        &&& forall|j: int| 0 <= j < index ==> #[trigger] self.money_market_program_ids@[j] != program_id
    }

    /// A registry with no money market.
    pub fn new() -> (registry: Self)
        ensures
            forall|i: int|
                0 <= i < TOTAL_DISTRIBUTIONS ==> #[trigger] registry.money_market_program_ids@[i]
                    == Pubkey::zero(),
    {
        RegistryPrograms { money_market_program_ids: [Pubkey::default(); TOTAL_DISTRIBUTIONS] }
    }

    /// The index of the money market whose program this is: the first slot that holds
    /// it. `None` for the default address and for a program that the registry lacks.
    pub fn money_market_index(&self, program_id: &Pubkey) -> (index: Option<usize>)
        ensures
            match index {
                Some(i) => self.is_index_of(i as int, *program_id),
                None => !self.trusts(*program_id),
            },
    {
        if *program_id == Pubkey::default() {
            return None;
        }
        let mut i: usize = 0;
        while i < TOTAL_DISTRIBUTIONS
            invariant
                i <= TOTAL_DISTRIBUTIONS,
                *program_id != Pubkey::zero(),
                forall|j: int| 0 <= j < i ==> #[trigger] self.money_market_program_ids@[j] != *program_id,
            decreases TOTAL_DISTRIBUTIONS - i,
        {
            if self.money_market_program_ids[i] == *program_id {
                return Some(i);
            }
            i += 1;
        }
        None
    }

    /// Whether the registry trusts the program as that of a money market.
    pub fn is_trusted(&self, program_id: &Pubkey) -> (trusted: bool)
        ensures
            trusted == self.trusts(*program_id),
    {
        match self.money_market_index(program_id) {
            Some(i) => {
                assert(self.money_market_program_ids@[i as int] == *program_id);
                true
            },
            None => false,
        }
    }
}

} // verus!
