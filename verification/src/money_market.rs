//! The boundary to the money markets: one variant per integrated lending protocol.
//! The rebalancer builds its calls and reads prices through this boundary and names
//! no money market anywhere else.

use vstd::prelude::*;
use crate::depositor::mm::{deposit_check, payload_amount};
use crate::instruction::Instruction;
use crate::math::mul_div;
use crate::pubkey::Pubkey;
use crate::registry::{RegistryPrograms, TOTAL_DISTRIBUTIONS};

verus! {

/// The integrated money markets. The position of a variant is the index of the money
/// market in the registry.
#[derive(Clone, Copy, Debug, PartialEq, Eq, Structural)]
pub enum MoneyMarket {
    /// Port Finance
    PortFinance,
    /// Larix
    Larix,
    /// Solend
    Solend,
}

/// What a money market reports of the reserve of one asset.
#[derive(Clone, Copy, Debug, PartialEq, Eq, Structural)]
pub struct ReserveState {
    /// Liquidity that the reserve owns.
    pub total_liquidity: u64,
    /// Collateral tokens that exist for the reserve.
    pub collateral_supply: u64,
}

/// The price of collateral in liquidity: `collateral` tokens are worth `liquidity`
/// units. A rate with a zero side stands for one to one.
#[derive(Clone, Copy, Debug, PartialEq, Eq, Structural)]
pub struct ExchangeRate {
    /// Side of the liquidity.
    pub liquidity: u64,
    /// Side of the collateral.
    pub collateral: u64,
}

/// The collateral that liquidity is worth at a rate, rounded down.
pub open spec fn collateral_for(rate: ExchangeRate, liquidity_amount: u64) -> int {
    if rate.liquidity == 0 || rate.collateral == 0 {
        liquidity_amount as int
    } else {
        liquidity_amount * rate.collateral / (rate.liquidity as int)
    }
}

/// The liquidity that collateral is worth at a rate, rounded down.
pub open spec fn liquidity_for(rate: ExchangeRate, collateral_amount: u64) -> int {
    if rate.liquidity == 0 || rate.collateral == 0 {
        collateral_amount as int
    } else {
        collateral_amount * rate.liquidity / (rate.collateral as int)
    }
}

/// The registry of the integrated money markets: each program at the index of its
/// market, every other slot empty.
pub fn registry_programs(port_finance: Pubkey, larix: Pubkey, solend: Pubkey) -> (registry: RegistryPrograms)
    ensures
        registry.money_market_program_ids@[MoneyMarket::PortFinance.spec_index()] == port_finance,
        registry.money_market_program_ids@[MoneyMarket::Larix.spec_index()] == larix,
        registry.money_market_program_ids@[MoneyMarket::Solend.spec_index()] == solend,
        forall|i: int|
            3 <= i < TOTAL_DISTRIBUTIONS ==> #[trigger] registry.money_market_program_ids@[i]
                == Pubkey::zero(),
{
    let mut registry = RegistryPrograms::new();
    registry.money_market_program_ids[MoneyMarket::PortFinance.index()] = port_finance;
    registry.money_market_program_ids[MoneyMarket::Larix.index()] = larix;
    registry.money_market_program_ids[MoneyMarket::Solend.index()] = solend;
    registry
}

/// The payload that carries an amount: eight bytes, most significant first.
pub fn encode_amount(amount: u64) -> (data: Vec<u8>)
    ensures
        data@.len() == 8,
        payload_amount(data@) == Some(amount),
{
    let r1: u64 = amount / 256;
    let r2: u64 = r1 / 256;
    let r3: u64 = r2 / 256;
    let r4: u64 = r3 / 256;
    let r5: u64 = r4 / 256;
    let r6: u64 = r5 / 256;
    let r7: u64 = r6 / 256;
    assert(r7 < 256);
    let mut data: Vec<u8> = Vec::new();
    data.push(r7 as u8);
    data.push((r6 % 256) as u8);
    data.push((r5 % 256) as u8);
    data.push((r4 % 256) as u8);
    data.push((r3 % 256) as u8);
    data.push((r2 % 256) as u8);
    data.push((r1 % 256) as u8);
    data.push((amount % 256) as u8);
    assert(amount == r1 * 256 + amount % 256);
    assert(r1 == r2 * 256 + r1 % 256);
    assert(r2 == r3 * 256 + r2 % 256);
    assert(r3 == r4 * 256 + r3 % 256);
    assert(r4 == r5 * 256 + r4 % 256);
    assert(r5 == r6 * 256 + r5 % 256);
    assert(r6 == r7 * 256 + r6 % 256);
    data
}

impl ExchangeRate {
    /// The collateral that `liquidity_amount` is worth; `None` where it does not fit
    /// in 64 bits.
    pub fn liquidity_to_collateral(&self, liquidity_amount: u64) -> (collateral: Option<u64>)
        ensures
            match collateral {
                Some(c) => c == collateral_for(*self, liquidity_amount),
                None => collateral_for(*self, liquidity_amount) > u64::MAX,
            },
    {
        if self.liquidity == 0 || self.collateral == 0 {
            Some(liquidity_amount)
        } else {
            mul_div(liquidity_amount, self.collateral, self.liquidity)
        }
    }

    /// The liquidity that `collateral_amount` is worth; `None` where it does not fit
    /// in 64 bits.
    pub fn collateral_to_liquidity(&self, collateral_amount: u64) -> (liquidity: Option<u64>)
        ensures
            match liquidity {
                Some(l) => l == liquidity_for(*self, collateral_amount),
                None => liquidity_for(*self, collateral_amount) > u64::MAX,
            },
    {
        if self.liquidity == 0 || self.collateral == 0 {
            Some(collateral_amount)
        } else {
            mul_div(collateral_amount, self.liquidity, self.collateral)
        }
    }
}

impl MoneyMarket {
    /// The index of each money market in the registry.
    pub open spec fn spec_index(self) -> int {
        match self {
            MoneyMarket::PortFinance => 0,
            MoneyMarket::Larix => 1,
            MoneyMarket::Solend => 2,
        }
    }

    /// The index of the money market in the registry.
    pub fn index(self) -> (index: usize)
        ensures
            index == self.spec_index(),
            index < TOTAL_DISTRIBUTIONS,
    {
        match self {
            MoneyMarket::PortFinance => 0,
            MoneyMarket::Larix => 1,
            MoneyMarket::Solend => 2,
        }
    }

    /// The money market at an index of the registry; `None` where none is integrated
    /// there.
    pub fn from_index(index: usize) -> (market: Option<MoneyMarket>)
        ensures
            match market {
                Some(m) => m.spec_index() == index,
                None => index > 2,
            },
    {
        match index {
            0 => Some(MoneyMarket::PortFinance),
            1 => Some(MoneyMarket::Larix),
            2 => Some(MoneyMarket::Solend),
            _ => None,
        }
    }

    /// The program of the money market, as the registry names it.
    pub fn program_id(self, registry: &RegistryPrograms) -> (program_id: Pubkey)
        ensures
            program_id == registry.money_market_program_ids@[self.spec_index()],
    {
        registry.money_market_program_ids[self.index()]
    }

    /// Builds the deposit of `amount` of an asset into the money market.
    ///
    /// The instruction targets the program that the registry names for the market,
    /// names the asset and carries the amount, so that it verifies as the money
    /// market instruction of a transaction whose first instruction is the verifying
    /// one.
    pub fn build_deposit(self, registry: &RegistryPrograms, asset: &Pubkey, amount: u64) -> (instruction:
        Instruction)
        ensures
            instruction.program_id == registry.money_market_program_ids@[self.spec_index()],
            instruction.accounts@ == seq![*asset],
            payload_amount(instruction.data@) == Some(amount),
            deposit_check(
                0,
                instruction.program_id,
                instruction.data@,
                registry.money_market_program_ids@[self.spec_index()],
                amount,
            ) is Ok,
    {
        let mut accounts: Vec<Pubkey> = Vec::new();
        accounts.push(*asset);
        Instruction { program_id: self.program_id(registry), accounts, data: encode_amount(amount) }
    }

    /// Builds the withdrawal of `amount` of an asset from the money market.
    ///
    /// The instruction targets the program that the registry names for the market,
    /// names the asset and carries the amount, so that it verifies like a deposit.
    pub fn build_withdraw(self, registry: &RegistryPrograms, asset: &Pubkey, amount: u64) -> (instruction:
        Instruction)
        ensures
            instruction.program_id == registry.money_market_program_ids@[self.spec_index()],
            instruction.accounts@ == seq![*asset],
            payload_amount(instruction.data@) == Some(amount),
            deposit_check(
                0,
                instruction.program_id,
                instruction.data@,
                registry.money_market_program_ids@[self.spec_index()],
                amount,
            ) is Ok,
    {
        let mut accounts: Vec<Pubkey> = Vec::new();
        accounts.push(*asset);
        Instruction { program_id: self.program_id(registry), accounts, data: encode_amount(amount) }
    }

    /// The price of the market's collateral for an asset, from what the market
    /// reports of its reserve: all collateral tokens together are worth all the
    /// liquidity of the reserve.
    pub fn get_exchange_rate(self, reserve: &ReserveState) -> (rate: ExchangeRate)
        ensures
            rate == (ExchangeRate { liquidity: reserve.total_liquidity, collateral: reserve.collateral_supply }),
    {
        match self {
            MoneyMarket::PortFinance | MoneyMarket::Larix | MoneyMarket::Solend => ExchangeRate {
                liquidity: reserve.total_liquidity,
                collateral: reserve.collateral_supply,
            },
        }
    }
}

} // verus!
