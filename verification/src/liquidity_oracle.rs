//! The liquidity oracle: for each asset, the share of the managed liquidity that
//! every money market should hold, and the time at which the shares were set.

use vstd::prelude::*;
use crate::error::EverlendError;
use crate::math::{lemma_sum_by_prefix_le, lemma_sum_by_take_next, sum_by};
use crate::pubkey::Pubkey;
use crate::registry::{RegistryPrograms, TOTAL_DISTRIBUTIONS};
use crate::state::AccountType;

verus! {

/// The whole of the managed liquidity, in basis points.
pub const FULL_PERCENT_BPS: u64 = 10_000;

/// The share of one money market.
#[derive(Clone, Copy, Debug, PartialEq, Eq)]
pub struct LiquidityDistribution {
    /// Program of the money market. The default address marks an empty entry.
    pub money_market: Pubkey,
    /// Share of the managed liquidity, in basis points.
    pub percent_bps: u64,
}

/// The authority that may set distributions.
#[derive(Clone, Copy, Debug)]
pub struct LiquidityOracle {
    /// Kind of the record.
    pub account_type: AccountType,
    /// The only address that may set a distribution.
    pub authority: Pubkey,
}

/// The target distribution of one asset.
#[derive(Clone, Copy, Debug)]
pub struct TokenDistribution {
    /// Kind of the record.
    pub account_type: AccountType,
    /// Mint of the asset.
    pub token_mint: Pubkey,
    /// The entries, in the order in which they were given.
    pub distribution: [LiquidityDistribution; TOTAL_DISTRIBUTIONS],
    /// Clock tick at which the distribution was set.
    pub updated_at: u64,
}

/// The share of an entry, as a number.
pub open spec fn percent_of() -> spec_fn(LiquidityDistribution) -> int {
    |entry: LiquidityDistribution| entry.percent_bps as int
}

/// The sum of the shares of all entries.
pub open spec fn total_percent(entries: Seq<LiquidityDistribution>) -> int {
    sum_by(entries, percent_of())
}

/// Whether an entry may stand in a distribution: it is empty, or it names a money
/// market that the registry trusts.
pub open spec fn entry_allowed(registry: RegistryPrograms, entry: LiquidityDistribution) -> bool {
    ||| entry.money_market == Pubkey::zero() && entry.percent_bps == 0
    ||| registry.trusts(entry.money_market)
}

/// Whether a distribution may be stored: every entry is allowed and the shares add
/// up to no more than the whole.
pub open spec fn valid_distribution(
    registry: RegistryPrograms,
    entries: Seq<LiquidityDistribution>,
) -> bool {
    &&& forall|i: int| 0 <= i < entries.len() ==> entry_allowed(registry, #[trigger] entries[i])
    &&& total_percent(entries) <= FULL_PERCENT_BPS
}

/// What setting a distribution yields, the first failing test deciding. `expected` is
/// the kind that the record must have before the call.
pub open spec fn distribution_outcome(
    record: TokenDistribution,
    expected: AccountType,
    oracle: LiquidityOracle,
    authority: Pubkey,
    registry: RegistryPrograms,
    entries: Seq<LiquidityDistribution>,
) -> Result<(), EverlendError> {
    if oracle.account_type != AccountType::LiquidityOracle {
        Err(EverlendError::InvalidAccountData)
    } else if authority != oracle.authority {
        Err(EverlendError::InvalidArgument)
    } else if record.account_type != expected {
        if expected == AccountType::Uninitialized {
            Err(EverlendError::AccountAlreadyInitialized)
        } else {
            Err(EverlendError::UninitializedAccount)
        }
    } else if !valid_distribution(registry, entries) {
        Err(EverlendError::InvalidDistribution)
    } else {
        Ok(())
    }
}

/// Tells whether a distribution may be stored.
pub fn validate_distribution(
    registry: &RegistryPrograms,
    distribution: &[LiquidityDistribution; TOTAL_DISTRIBUTIONS],
) -> (valid: bool)
    ensures
        valid == valid_distribution(*registry, distribution@),
{
    let mut total: u64 = 0;
    let mut i: usize = 0;
    while i < TOTAL_DISTRIBUTIONS
        invariant
            i <= TOTAL_DISTRIBUTIONS,
            total == total_percent(distribution@.take(i as int)),
            total <= FULL_PERCENT_BPS,
            forall|j: int| 0 <= j < i ==> entry_allowed(*registry, #[trigger] distribution@[j]),
        decreases TOTAL_DISTRIBUTIONS - i,
    {
        let entry = distribution[i];
        let allowed = if entry.money_market == Pubkey::default() {
            entry.percent_bps == 0
        } else {
            registry.is_trusted(&entry.money_market)
        };
        if !allowed {
            assert(!entry_allowed(*registry, distribution@[i as int]));
            return false;
        }
        proof {
            lemma_sum_by_take_next(distribution@, i as int, percent_of());
        }
        if entry.percent_bps > FULL_PERCENT_BPS - total {
            proof {
                lemma_sum_by_prefix_le(distribution@, i + 1, percent_of());
            }
            return false;
        }
        total = total + entry.percent_bps;
        i += 1;
    }
    proof {
        assert(distribution@.take(TOTAL_DISTRIBUTIONS as int) =~= distribution@);
    }
    true
}

impl LiquidityOracle {
    /// An oracle under the given authority.
    pub fn new(authority: Pubkey) -> (oracle: Self)
        ensures
            oracle.account_type == AccountType::LiquidityOracle,
            oracle.authority == authority,
    {
        LiquidityOracle { account_type: AccountType::LiquidityOracle, authority }
    }
}

impl TokenDistribution {
    /// The invariant of the record: the shares add up to no more than the whole.
    pub open spec fn wf(self) -> bool {
        total_percent(self.distribution@) <= FULL_PERCENT_BPS
    }

    /// A record that has not been initialized: no asset, no entry, tick zero.
    pub fn uninitialized() -> (record: Self)
        ensures
            record.wf(),
            record.account_type == AccountType::Uninitialized,
            record.token_mint == Pubkey::zero(),
            record.updated_at == 0,
            forall|i: int|
                0 <= i < TOTAL_DISTRIBUTIONS ==> #[trigger] record.distribution@[i]
                    == (LiquidityDistribution { money_market: Pubkey::zero(), percent_bps: 0 }),
    {
        let empty = LiquidityDistribution { money_market: Pubkey::default(), percent_bps: 0 };
        let record = TokenDistribution {
            account_type: AccountType::Uninitialized,
            token_mint: Pubkey::default(),
            distribution: [empty; TOTAL_DISTRIBUTIONS],
            updated_at: 0,
        };
        proof {
            lemma_total_percent_of_empty(record.distribution@, TOTAL_DISTRIBUTIONS as int);
            assert(record.distribution@.take(TOTAL_DISTRIBUTIONS as int) =~= record.distribution@);
        }
        record
    }

    /// Creates the distribution of an asset.
    ///
    /// Only the oracle's authority may do so, and only once per record. The entries
    /// must be valid against the registry. On success the record holds the asset, the
    /// entries as given and the tick; on failure it is unchanged.
    pub fn create_token_distribution(
        &mut self,
        oracle: &LiquidityOracle,
        authority: &Pubkey,
        registry: &RegistryPrograms,
        token_mint: Pubkey,
        distribution: &[LiquidityDistribution; TOTAL_DISTRIBUTIONS],
        slot: u64,
    ) -> (result: Result<(), EverlendError>)
        ensures
            result == distribution_outcome(
                *old(self),
                AccountType::Uninitialized,
                *oracle,
                *authority,
                *registry,
                distribution@,
            ),
            result is Ok ==> *final(self) == (TokenDistribution {
                account_type: AccountType::TokenDistribution,
                token_mint,
                distribution: *distribution,
                updated_at: slot,
            }) && final(self).wf(),
            result is Err ==> *final(self) == *old(self),
    {
        match oracle.account_type {
            AccountType::LiquidityOracle => {},
            _ => {
                return Err(EverlendError::InvalidAccountData);
            },
        }
        if *authority != oracle.authority {
            return Err(EverlendError::InvalidArgument);
        }
        match self.account_type {
            AccountType::Uninitialized => {},
            _ => {
                return Err(EverlendError::AccountAlreadyInitialized);
            },
        }
        if !validate_distribution(registry, distribution) {
            return Err(EverlendError::InvalidDistribution);
        }
        self.account_type = AccountType::TokenDistribution;
        self.token_mint = token_mint;
        self.distribution = *distribution;
        self.updated_at = slot;
        Ok(())
    }

    /// Replaces the distribution of the asset.
    ///
    /// Only the oracle's authority may do so, on a record that was created. The
    /// entries must be valid against the registry: every entry empty or of a trusted
    /// money market, and the shares at most the whole. On success the entries as given
    /// replace all earlier ones and the tick is stored; on failure the record is
    /// unchanged.
    pub fn set_distribution(
        &mut self,
        oracle: &LiquidityOracle,
        authority: &Pubkey,
        registry: &RegistryPrograms,
        distribution: &[LiquidityDistribution; TOTAL_DISTRIBUTIONS],
        slot: u64,
    ) -> (result: Result<(), EverlendError>)
        ensures
            result == distribution_outcome(
                *old(self),
                AccountType::TokenDistribution,
                *oracle,
                *authority,
                *registry,
                distribution@,
            ),
            result is Ok ==> *final(self) == (TokenDistribution {
                account_type: AccountType::TokenDistribution,
                token_mint: old(self).token_mint,
                distribution: *distribution,
                updated_at: slot,
            }) && final(self).wf(),
            result is Err ==> *final(self) == *old(self),
    {
        match oracle.account_type {
            AccountType::LiquidityOracle => {},
            _ => {
                return Err(EverlendError::InvalidAccountData);
            },
        }
        if *authority != oracle.authority {
            return Err(EverlendError::InvalidArgument);
        }
        match self.account_type {
            AccountType::TokenDistribution => {},
            _ => {
                return Err(EverlendError::UninitializedAccount);
            },
        }
        if !validate_distribution(registry, distribution) {
            return Err(EverlendError::InvalidDistribution);
        }
        self.distribution = *distribution;
        self.updated_at = slot;
        Ok(())
    }

    /// The entries that were stored last, and the tick at which they were stored.
    pub fn get_distribution(&self) -> (stored: ([LiquidityDistribution; TOTAL_DISTRIBUTIONS], u64))
        ensures
            stored.0 == self.distribution,
            stored.1 == self.updated_at,
    {
        (self.distribution, self.updated_at)
    }

    /// Tells whether the record keeps its invariant.
    pub fn is_wf(&self) -> (ok: bool)
        ensures
            ok == self.wf(),
    {
        let mut total: u64 = 0;
        let mut i: usize = 0;
        while i < TOTAL_DISTRIBUTIONS
            invariant
                i <= TOTAL_DISTRIBUTIONS,
                total == total_percent(self.distribution@.take(i as int)),
                total <= FULL_PERCENT_BPS,
            decreases TOTAL_DISTRIBUTIONS - i,
        {
            proof {
                lemma_sum_by_take_next(self.distribution@, i as int, percent_of());
            }
            if self.distribution[i].percent_bps > FULL_PERCENT_BPS - total {
                proof {
                    lemma_sum_by_prefix_le(self.distribution@, i + 1, percent_of());
                }
                return false;
            }
            total = total + self.distribution[i].percent_bps;
            i += 1;
        }
        proof {
            assert(self.distribution@.take(TOTAL_DISTRIBUTIONS as int) =~= self.distribution@);
        }
        true
    }
}

/// Entries without a share add up to nothing.
pub proof fn lemma_total_percent_of_empty(entries: Seq<LiquidityDistribution>, n: int)
    requires
        0 <= n <= entries.len(),
        forall|i: int| 0 <= i < n ==> (#[trigger] entries[i]).percent_bps == 0,
    ensures
        total_percent(entries.take(n)) == 0,
    decreases n,
{
    if n > 0 {
        lemma_total_percent_of_empty(entries, n - 1);
        lemma_sum_by_take_next(entries, n - 1, percent_of());
    }
}

} // verus!
