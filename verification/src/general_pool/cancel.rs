//! Cancellation of a withdrawal request, with every account that the caller passes
//! held against the request and against the pool it belongs to.

use vstd::prelude::*;
use crate::error::EverlendError;
use crate::general_pool::withdrawal::{
    has_request,
    position_of,
    WithdrawalRequest,
    WithdrawalRequests,
    WithdrawalRequestsView,
};
use crate::general_pool::{Mint, Pool, PoolMarket};
use crate::pubkey::Pubkey;
use crate::state::{Account, AccountType};

verus! {

/// The accounts and addresses that a caller passes to cancel a withdrawal request.
#[derive(Clone, Copy, Debug)]
pub struct CancelWithdrawRequestAccounts {
    /// Market of the pool.
    pub pool_market: Account<PoolMarket>,
    /// The pool.
    pub pool: Account<Pool>,
    /// Account that the shares go back to.
    pub source: Pubkey,
    /// Mint of the pool's asset.
    pub token_mint: Pubkey,
    /// Mint of the pool's shares.
    pub pool_mint: Account<Mint>,
    /// Manager of the market.
    pub manager: Pubkey,
    /// Owner of the request.
    pub from: Pubkey,
}

/// What the cancellation yields, the first failing test deciding: an account that the
/// program does not own, an account that holds another kind of record, an argument
/// that the records contradict, a request that does not exist, a caller that does not
/// own it; else the request.
pub open spec fn cancel_request_outcome(
    program_id: Pubkey,
    accounts: CancelWithdrawRequestAccounts,
    queue_owner: Pubkey,
    queue: WithdrawalRequestsView,
    index: u64,
) -> Result<WithdrawalRequest, EverlendError> {
    if accounts.pool_market.owner != program_id || accounts.pool.owner != program_id || queue_owner
        != program_id {
        Err(EverlendError::InvalidAccountOwner)
    } else if accounts.pool_market.data.account_type != AccountType::PoolMarket {
        Err(EverlendError::InvalidAccountData)
    } else if accounts.manager != accounts.pool_market.data.manager {
        Err(EverlendError::InvalidArgument)
    } else if accounts.pool.data.account_type != AccountType::Pool {
        Err(EverlendError::InvalidAccountData)
    } else if accounts.pool.data.pool_market != accounts.pool_market.key || accounts.token_mint
        != accounts.pool.data.token_mint {
        Err(EverlendError::InvalidArgument)
    } else if !accounts.pool_mint.data.is_initialized {
        Err(EverlendError::InvalidAccountData)
    } else if accounts.pool_mint.key != accounts.pool.data.pool_mint {
        Err(EverlendError::InvalidArgument)
    } else if queue.account_type != AccountType::WithdrawalRequests {
        Err(EverlendError::InvalidAccountData)
    } else if queue.pool != accounts.pool.key || queue.mint != accounts.token_mint {
        Err(EverlendError::InvalidArgument)
    } else if !has_request(queue.requests, index) {
        Err(EverlendError::AccountNotFound)
    } else if queue.requests[position_of(queue.requests, index)].source != accounts.source {
        Err(EverlendError::InvalidArgument)
    } else if queue.requests[position_of(queue.requests, index)].rent_payer != accounts.from {
        Err(EverlendError::InvalidAccountOwner)
    } else {
        Ok(queue.requests[position_of(queue.requests, index)])
    }
}

/// Cancels the withdrawal request with the number `index` for its owner.
///
/// Every account is checked: the market, the pool and the queue must belong to the
/// program and hold records of their kinds; the manager, the market, the mints and
/// the pool must be those that the records name; the source and the caller must be
/// those of the request. On success the request leaves the queue, whose liquidity
/// supply falls by what the request was worth while its counters stay, and the host
/// gives the shares back to the source and the storage payment to the owner. On
/// failure nothing changes.
pub fn cancel_withdraw_request(
    program_id: &Pubkey,
    accounts: &CancelWithdrawRequestAccounts,
    withdrawal_requests: &mut Account<WithdrawalRequests>,
    index: u64,
) -> (result: Result<WithdrawalRequest, EverlendError>)
    requires
        old(withdrawal_requests).data.wf(),
    ensures
        final(withdrawal_requests).data.wf(),
        final(withdrawal_requests).key == old(withdrawal_requests).key,
        final(withdrawal_requests).owner == old(withdrawal_requests).owner,
        result == cancel_request_outcome(
            *program_id,
            *accounts,
            old(withdrawal_requests).owner,
            old(withdrawal_requests).data@,
            index,
        ),
        result is Ok ==> final(withdrawal_requests).data@ == old(withdrawal_requests).data@.without(
            position_of(old(withdrawal_requests).data.requests@, index),
        ),
        result is Err ==> final(withdrawal_requests).data@ == old(withdrawal_requests).data@,
{
    if accounts.pool_market.owner != *program_id || accounts.pool.owner != *program_id
        || withdrawal_requests.owner != *program_id {
        return Err(EverlendError::InvalidAccountOwner);
    }
    if accounts.pool_market.data.account_type != AccountType::PoolMarket {
        return Err(EverlendError::InvalidAccountData);
    }
    if accounts.manager != accounts.pool_market.data.manager {
        return Err(EverlendError::InvalidArgument);
    }
    if accounts.pool.data.account_type != AccountType::Pool {
        return Err(EverlendError::InvalidAccountData);
    }
    if accounts.pool.data.pool_market != accounts.pool_market.key || accounts.token_mint
        != accounts.pool.data.token_mint {
        return Err(EverlendError::InvalidArgument);
    }
    if !accounts.pool_mint.data.is_initialized {
        return Err(EverlendError::InvalidAccountData);
    }
    if accounts.pool_mint.key != accounts.pool.data.pool_mint {
        return Err(EverlendError::InvalidArgument);
    }
    if withdrawal_requests.data.account_type != AccountType::WithdrawalRequests {
        return Err(EverlendError::InvalidAccountData);
    }
    if withdrawal_requests.data.pool != accounts.pool.key || withdrawal_requests.data.mint
        != accounts.token_mint {
        return Err(EverlendError::InvalidArgument);
    }
    let request = match withdrawal_requests.data.get(index) {
        Some(request) => request,
        None => {
            return Err(EverlendError::AccountNotFound);
        },
    };
    if request.source != accounts.source {
        return Err(EverlendError::InvalidArgument);
    }
    withdrawal_requests.data.cancel(index, &accounts.from)
}

} // verus!
