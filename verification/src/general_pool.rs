//! The general pool: it holds the liquidity of one asset, prices the shares of its
//! depositors and lends liquidity to borrow authorities.

use vstd::prelude::*;
use crate::error::EverlendError;
use crate::math::mul_div;
use crate::pubkey::Pubkey;
use crate::state::AccountType;

pub mod cancel;
pub mod withdrawal;

verus! {

/// The whole of a pool's supply, in basis points.
pub const FULL_SHARE_BPS: u64 = 10_000;

/// A market of pools, run by its manager.
#[derive(Clone, Copy, Debug)]
pub struct PoolMarket {
    /// Kind of the record.
    pub account_type: AccountType,
    /// Manager of the market.
    pub manager: Pubkey,
}

/// The mint of a pool's shares, as far as the pool reads it.
#[derive(Clone, Copy, Debug)]
pub struct Mint {
    /// Whether the account holds a mint at all.
    pub is_initialized: bool,
    /// Number of shares that exist.
    pub supply: u64,
}

/// The pool of one asset.
#[derive(Clone, Copy, Debug)]
pub struct Pool {
    /// Kind of the record.
    pub account_type: AccountType,
    /// Market that the pool belongs to.
    pub pool_market: Pubkey,
    /// Mint of the asset.
    pub token_mint: Pubkey,
    /// Account that holds the pool's liquidity.
    pub token_account: Pubkey,
    /// Mint of the pool's shares.
    pub pool_mint: Pubkey,
    /// Liquidity that the pool holds.
    pub total_liquidity_supply: u64,
}

/// A delegate that may draw liquidity from a pool, up to a share of the pool's supply.
#[derive(Clone, Copy, Debug)]
pub struct PoolBorrowAuthority {
    /// Kind of the record.
    pub account_type: AccountType,
    /// Pool that the authority may draw from.
    pub pool: Pubkey,
    /// The delegate.
    pub borrow_authority: Pubkey,
    /// Liquidity that the delegate has drawn and not returned.
    pub amount_borrowed: u64,
    /// Largest share of the pool's supply that the delegate may hold, in basis points.
    pub share_allowed_bps: u16,
}

/// The shares that a deposit mints: in proportion to the pool's liquidity, or one
/// share per unit where the pool has no liquidity or no share yet.
pub open spec fn shares_for_deposit(amount: u64, total_liquidity_supply: u64, pool_mint_supply: u64) -> int {
    if total_liquidity_supply == 0 || pool_mint_supply == 0 {
        amount as int
    } else {
        amount * pool_mint_supply / (total_liquidity_supply as int)
    }
}

/// The liquidity that shares are worth at the current price, or one unit per share
/// where no share exists.
pub open spec fn liquidity_for_shares(shares: u64, total_liquidity_supply: u64, pool_mint_supply: u64) -> int {
    if pool_mint_supply == 0 {
        shares as int
    } else {
        shares * total_liquidity_supply / (pool_mint_supply as int)
    }
}

/// The liquidity that a borrow authority may hold at most: its share of the pool's
/// supply, which is what the pool holds and what the authority has drawn.
pub open spec fn amount_allowed(authority: PoolBorrowAuthority, pool: Pool) -> int {
    (pool.total_liquidity_supply + authority.amount_borrowed) * authority.share_allowed_bps / (
    FULL_SHARE_BPS as int)
}

/// What a deposit yields: the shares to mint, or an overflow of the pool's liquidity
/// or of the number of shares.
pub open spec fn deposit_outcome(pool: Pool, pool_mint_supply: u64, amount: u64) -> Result<u64, EverlendError> {
    let shares = shares_for_deposit(amount, pool.total_liquidity_supply, pool_mint_supply);
    if shares > u64::MAX || pool.total_liquidity_supply + amount > u64::MAX || pool_mint_supply + shares
        > u64::MAX {
        Err(EverlendError::MathOverflow)
    } else {
        Ok(shares as u64)
    }
}

/// What drawing liquidity yields, the first failing test deciding.
pub open spec fn reserve_outcome(pool: Pool, authority: PoolBorrowAuthority, amount: u64) -> Result<(), EverlendError> {
    if amount > pool.total_liquidity_supply {
        Err(EverlendError::InsufficientFunds)
    } else if authority.amount_borrowed + amount > amount_allowed(authority, pool) {
        Err(EverlendError::AmountAllowedCheckFailed)
    } else if authority.amount_borrowed + amount > u64::MAX {
        Err(EverlendError::MathOverflow)
    } else {
        Ok(())
    }
}

impl Mint {
    /// A mint with the given number of shares.
    pub fn new(supply: u64) -> (mint: Self)
        ensures
            mint.is_initialized,
            mint.supply == supply,
    {
        Mint { is_initialized: true, supply }
    }
}

impl PoolMarket {
    /// A market under the given manager.
    pub fn new(manager: Pubkey) -> (market: Self)
        ensures
            market.account_type == AccountType::PoolMarket,
            market.manager == manager,
    {
        PoolMarket { account_type: AccountType::PoolMarket, manager }
    }
}

impl PoolBorrowAuthority {
    /// An authority over the pool that has drawn nothing yet.
    pub fn new(pool: Pubkey, borrow_authority: Pubkey, share_allowed_bps: u16) -> (authority: Self)
        ensures
            authority == (PoolBorrowAuthority {
                account_type: AccountType::PoolBorrowAuthority,
                pool,
                borrow_authority,
                amount_borrowed: 0,
                share_allowed_bps,
            }),
    {
        PoolBorrowAuthority {
            account_type: AccountType::PoolBorrowAuthority,
            pool,
            borrow_authority,
            amount_borrowed: 0,
            share_allowed_bps,
        }
    }
}

impl Pool {
    /// A pool without liquidity.
    pub fn new(pool_market: Pubkey, token_mint: Pubkey, token_account: Pubkey, pool_mint: Pubkey) -> (pool: Self)
        ensures
            pool == (Pool {
                account_type: AccountType::Pool,
                pool_market,
                token_mint,
                token_account,
                pool_mint,
                total_liquidity_supply: 0,
            }),
    {
        Pool {
            account_type: AccountType::Pool,
            pool_market,
            token_mint,
            token_account,
            pool_mint,
            total_liquidity_supply: 0,
        }
    }

    /// Takes a deposit of `amount` and tells how many shares to mint for it.
    ///
    /// The shares are in proportion to the pool's liquidity, given the number of shares
    /// that exist; the first deposit gets one share per unit. The pool's liquidity
    /// grows by the amount. Where a number would not fit in 64 bits the deposit is
    /// refused and the pool unchanged.
    pub fn deposit(&mut self, pool_mint_supply: u64, amount: u64) -> (result: Result<u64, EverlendError>)
        ensures
            result == deposit_outcome(*old(self), pool_mint_supply, amount),
            result is Ok ==> *final(self) == (Pool {
                total_liquidity_supply: (old(self).total_liquidity_supply + amount) as u64,
                ..*old(self)
            }),
            result is Err ==> *final(self) == *old(self),
    {
        let shares = if self.total_liquidity_supply == 0 || pool_mint_supply == 0 {
            amount
        } else {
            match mul_div(amount, pool_mint_supply, self.total_liquidity_supply) {
                Some(shares) => shares,
                None => {
                    return Err(EverlendError::MathOverflow);
                },
            }
        };
        if amount > u64::MAX - self.total_liquidity_supply {
            return Err(EverlendError::MathOverflow);
        }
        if shares > u64::MAX - pool_mint_supply {
            return Err(EverlendError::MathOverflow);
        }
        self.total_liquidity_supply = self.total_liquidity_supply + amount;
        Ok(shares)
    }

    /// Lets a borrow authority draw `amount` of liquidity from the pool.
    ///
    /// The pool must hold the amount, and what the authority holds afterwards must be
    /// within its share of the pool's supply. On success the pool's liquidity falls by
    /// the amount and the authority's debt grows by it; on failure nothing changes.
    pub fn reserve_liquidity(&mut self, authority: &mut PoolBorrowAuthority, amount: u64) -> (result: Result<
        (),
        EverlendError,
    >)
        ensures
            result == reserve_outcome(*old(self), *old(authority), amount),
            result is Ok ==> *final(self) == (Pool {
                total_liquidity_supply: (old(self).total_liquidity_supply - amount) as u64,
                ..*old(self)
            }) && *final(authority) == (PoolBorrowAuthority {
                amount_borrowed: (old(authority).amount_borrowed + amount) as u64,
                ..*old(authority)
            }),
            result is Err ==> *final(self) == *old(self) && *final(authority) == *old(authority),
    {
        if amount > self.total_liquidity_supply {
            return Err(EverlendError::InsufficientFunds);
        }
        let supply: u128 = self.total_liquidity_supply as u128 + authority.amount_borrowed as u128;
        assert(supply * authority.share_allowed_bps <= 0x2_0000_0000_0000_0000 * 0x1_0000) by (nonlinear_arith)
            requires
                supply <= 0x2_0000_0000_0000_0000,
                authority.share_allowed_bps <= 0x1_0000,
        ;
        let allowed: u128 = supply * (authority.share_allowed_bps as u128) / (FULL_SHARE_BPS as u128);
        let wanted: u128 = authority.amount_borrowed as u128 + amount as u128;
        if wanted > allowed {
            return Err(EverlendError::AmountAllowedCheckFailed);
        }
        if wanted > u64::MAX as u128 {
            return Err(EverlendError::MathOverflow);
        }
        self.total_liquidity_supply = self.total_liquidity_supply - amount;
        authority.amount_borrowed = authority.amount_borrowed + amount;
        Ok(())
    }

    /// Takes back `amount` of liquidity from a borrow authority.
    ///
    /// The pool's liquidity grows by the amount. The authority's debt falls by it, to
    /// nothing where more comes back than was drawn. Where the pool's liquidity would
    /// not fit in 64 bits the return is refused and nothing changes.
    pub fn return_liquidity(&mut self, authority: &mut PoolBorrowAuthority, amount: u64) -> (result: Result<
        (),
        EverlendError,
    >)
        ensures
            result is Ok <==> old(self).total_liquidity_supply + amount <= u64::MAX,
            result is Err ==> result == Err::<(), EverlendError>(EverlendError::MathOverflow),
            result is Ok ==> *final(self) == (Pool {
                total_liquidity_supply: (old(self).total_liquidity_supply + amount) as u64,
                ..*old(self)
            }) && *final(authority) == (PoolBorrowAuthority {
                amount_borrowed: if amount >= old(authority).amount_borrowed {
                    0
                } else {
                    (old(authority).amount_borrowed - amount) as u64
                },
                ..*old(authority)
            }),
            result is Err ==> *final(self) == *old(self) && *final(authority) == *old(authority),
    {
        if amount > u64::MAX - self.total_liquidity_supply {
            return Err(EverlendError::MathOverflow);
        }
        self.total_liquidity_supply = self.total_liquidity_supply + amount;
        if amount >= authority.amount_borrowed {
            authority.amount_borrowed = 0;
        } else {
            authority.amount_borrowed = authority.amount_borrowed - amount;
        }
        Ok(())
    }
}

/// The liquidity that shares are worth, for the caller that holds them.
///
/// `None` where the value does not fit in 64 bits.
pub fn shares_to_liquidity(shares: u64, total_liquidity_supply: u64, pool_mint_supply: u64) -> (liquidity: Option<u64>)
    ensures
        match liquidity {
            Some(l) => l == liquidity_for_shares(shares, total_liquidity_supply, pool_mint_supply),
            None => liquidity_for_shares(shares, total_liquidity_supply, pool_mint_supply) > u64::MAX,
        },
{
    if pool_mint_supply == 0 {
        Some(shares)
    } else {
        mul_div(shares, total_liquidity_supply, pool_mint_supply)
    }
}

} // verus!
