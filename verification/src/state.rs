//! Tags that tell stored records apart, and accounts as the host hands them over.

use vstd::prelude::*;
use crate::pubkey::Pubkey;

verus! {

/// The kind of a stored record. The stored form of every record starts with the byte
/// of its kind, so a scan can tell the kinds apart without decoding a whole record.
#[derive(Clone, Copy, Debug, PartialEq, Eq, Structural)]
pub enum AccountType {
    /// The record has not been initialized; its tag byte is zero.
    Uninitialized,
    /// Liquidity oracle
    LiquidityOracle,
    /// Token distribution
    TokenDistribution,
    /// Pool market
    PoolMarket,
    /// Pool
    Pool,
    /// Pool borrow authority
    PoolBorrowAuthority,
    /// The withdrawal requests of a pool
    WithdrawalRequests,
    /// One withdrawal request
    WithdrawalRequest,
    /// Rebalancing of one asset
    Rebalancing,
}

impl Default for AccountType {
    fn default() -> (kind: Self)
        ensures
            kind == AccountType::Uninitialized,
    {
        AccountType::Uninitialized
    }
}

impl AccountType {
    /// The tag byte of each kind.
    pub open spec fn spec_tag(self) -> u8 {
        match self {
            AccountType::Uninitialized => 0,
            AccountType::LiquidityOracle => 1,
            AccountType::TokenDistribution => 2,
            AccountType::PoolMarket => 3,
            AccountType::Pool => 4,
            AccountType::PoolBorrowAuthority => 5,
            AccountType::WithdrawalRequests => 6,
            AccountType::WithdrawalRequest => 7,
            AccountType::Rebalancing => 8,
        }
    }

    /// The kind that a tag byte stands for, if any.
    pub open spec fn spec_from_tag(tag: u8) -> Option<AccountType> {
        if tag == 0 {
            Some(AccountType::Uninitialized)
        } else if tag == 1 {
            Some(AccountType::LiquidityOracle)
        } else if tag == 2 {
            Some(AccountType::TokenDistribution)
        } else if tag == 3 {
            Some(AccountType::PoolMarket)
        } else if tag == 4 {
            Some(AccountType::Pool)
        } else if tag == 5 {
            Some(AccountType::PoolBorrowAuthority)
        } else if tag == 6 {
            Some(AccountType::WithdrawalRequests)
        } else if tag == 7 {
            Some(AccountType::WithdrawalRequest)
        } else if tag == 8 {
            Some(AccountType::Rebalancing)
        } else {
            None
        }
    }

    /// The byte that the stored form of a record of this kind starts with.
    pub fn tag(self) -> (tag: u8)
        ensures
            tag == self.spec_tag(),
    {
        match self {
            AccountType::Uninitialized => 0,
            AccountType::LiquidityOracle => 1,
            AccountType::TokenDistribution => 2,
            AccountType::PoolMarket => 3,
            AccountType::Pool => 4,
            AccountType::PoolBorrowAuthority => 5,
            AccountType::WithdrawalRequests => 6,
            AccountType::WithdrawalRequest => 7,
            AccountType::Rebalancing => 8,
        }
    }

    /// The kind that a tag byte stands for; `None` for a byte that no kind has.
    pub fn from_tag(tag: u8) -> (kind: Option<AccountType>)
        ensures
            kind == AccountType::spec_from_tag(tag),
    {
        match tag {
            0 => Some(AccountType::Uninitialized),
            1 => Some(AccountType::LiquidityOracle),
            2 => Some(AccountType::TokenDistribution),
            3 => Some(AccountType::PoolMarket),
            4 => Some(AccountType::Pool),
            5 => Some(AccountType::PoolBorrowAuthority),
            6 => Some(AccountType::WithdrawalRequests),
            7 => Some(AccountType::WithdrawalRequest),
            8 => Some(AccountType::Rebalancing),
            _ => None,
        }
    }
}

/// The kind of the record that stored data holds, read from its first byte alone:
/// `None` for empty data and for a first byte that no kind has.
pub open spec fn spec_record_kind(data: Seq<u8>) -> Option<AccountType> {
    if data.len() == 0 {
        None
    } else {
        AccountType::spec_from_tag(data[0])
    }
}

/// Tells which kind of record stored data holds without decoding the rest of it.
pub fn record_kind(data: &[u8]) -> (kind: Option<AccountType>)
    ensures
        kind == spec_record_kind(data@),
{
    if data.len() == 0 {
        None
    } else {
        AccountType::from_tag(data[0])
    }
}

/// An account as the host hands it to an operation: its address, the program that
/// owns it, and the record decoded from its data.
///
/// An account that does not exist is owned by no program of this library and holds
/// the default record, whose kind is `Uninitialized`.
#[derive(Clone, Copy, Debug)]
pub struct Account<T> {
    /// Address of the account.
    pub key: Pubkey,
    /// Program that owns the account.
    pub owner: Pubkey,
    /// The record that the account holds.
    pub data: T,
}

} // verus!
