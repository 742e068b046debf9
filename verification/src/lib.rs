//! Liquidity routing: a pool with a withdrawal queue, an oracle of target allocations
//! and the rebalancer that moves liquidity between the pool and money markets.
//!
//! The library decides and keeps the books; the host moves the tokens. Every operation
//! takes the records that it changes by exclusive reference and either completes or
//! leaves them as they were, so a host that hands out each record to one call at a
//! time needs no further locking.

pub mod depositor;
pub mod error;
pub mod general_pool;
pub mod instruction;
pub mod liquidity_oracle;
pub mod math;
pub mod money_market;
pub mod pubkey;
pub mod registry;
pub mod rewards;
pub mod state;
