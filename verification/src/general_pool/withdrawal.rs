//! The withdrawal requests of a pool: a queue that is served strictly in the order in
//! which the requests were made.
//!
//! A request has no deadline. It stays outstanding until a round of processing
//! fulfills it or its owner cancels it.

use vstd::prelude::*;
use crate::error::EverlendError;
use crate::general_pool::{liquidity_for_shares, shares_to_liquidity, Pool};
use crate::math::{lemma_sum_by_push, lemma_sum_by_remove, lemma_sum_by_split, lemma_sum_by_take_next, sum_by};
use crate::pubkey::Pubkey;
use crate::state::AccountType;

verus! {

/// A request to redeem shares of a pool for liquidity. It never changes once made: it
/// exists until it is fulfilled or canceled.
#[derive(Clone, Copy, Debug, PartialEq, Eq)]
pub struct WithdrawalRequest {
    /// Number of the request in its queue.
    pub id: u64,
    /// Owner of the request, who paid for its storage and gets that payment back.
    pub rent_payer: Pubkey,
    /// Account that the shares came from.
    pub source: Pubkey,
    /// Account that the liquidity goes to.
    pub destination: Pubkey,
    /// Liquidity that the request is worth.
    pub liquidity_amount: u64,
    /// Shares that are held in custody for the request.
    pub collateral_amount: u64,
}

/// The queue of the withdrawal requests of one pool, with the requests that are
/// outstanding.
#[derive(Debug)]
pub struct WithdrawalRequests {
    /// Kind of the record.
    pub account_type: AccountType,
    /// Pool that the queue belongs to.
    pub pool: Pubkey,
    /// Mint of the pool's asset.
    pub mint: Pubkey,
    /// Number of the request that was made last; zero before the first.
    pub last_request_id: u64,
    /// Every request up to this number has been fulfilled or canceled.
    pub last_processed_request_id: u64,
    /// Liquidity that the outstanding requests are worth together.
    pub liquidity_supply: u64,
    /// The outstanding requests, oldest first.
    pub requests: Vec<WithdrawalRequest>,
}

/// The queue as a value.
pub struct WithdrawalRequestsView {
    pub account_type: AccountType,
    pub pool: Pubkey,
    pub mint: Pubkey,
    pub last_request_id: u64,
    pub last_processed_request_id: u64,
    pub liquidity_supply: u64,
    pub requests: Seq<WithdrawalRequest>,
}

/// What the queue hands back from a round of processing.
#[derive(Debug)]
pub struct ProcessedWithdrawals {
    /// The requests that were fulfilled, oldest first. For each the host pays the
    /// liquidity to the destination and burns the shares held in custody.
    pub fulfilled: Vec<WithdrawalRequest>,
    /// `InsufficientFunds` where the round stopped before a request that the pool
    /// could not pay; the round can be repeated once there is liquidity.
    pub result: Result<(), EverlendError>,
}

/// The liquidity of a request, as a number.
pub open spec fn liquidity_of() -> spec_fn(WithdrawalRequest) -> int {
    |request: WithdrawalRequest| request.liquidity_amount as int
}

/// The liquidity that requests are worth together.
pub open spec fn total_liquidity(requests: Seq<WithdrawalRequest>) -> int {
    sum_by(requests, liquidity_of())
}

/// Whether a request with this number is among the requests.
pub open spec fn has_request(requests: Seq<WithdrawalRequest>, id: u64) -> bool {
    exists|i: int| 0 <= i < requests.len() && (#[trigger] requests[i]).id == id
}

/// The position of the request with this number among the requests.
pub open spec fn position_of(requests: Seq<WithdrawalRequest>, id: u64) -> int {
    choose|i: int| 0 <= i < requests.len() && (#[trigger] requests[i]).id == id
}

/// How many requests a round fulfills: the longest run from the front of requests
/// whose numbers are at most `up_to_id` and that `available` liquidity pays in turn.
pub open spec fn fundable_prefix(requests: Seq<WithdrawalRequest>, up_to_id: u64, available: int) -> nat
    decreases requests.len(),
{
    if requests.len() == 0 || requests[0].id > up_to_id || requests[0].liquidity_amount > available {
        0
    } else {
        1 + fundable_prefix(requests.drop_first(), up_to_id, available - requests[0].liquidity_amount)
    }
}

impl WithdrawalRequestsView {
    /// The invariant of the queue: the counters are in order, the outstanding
    /// requests lie between them with rising numbers, and the liquidity supply is what
    /// the outstanding requests add up to.
    pub open spec fn wf(self) -> bool {
        &&& self.last_processed_request_id <= self.last_request_id
        &&& forall|i: int|
            0 <= i < self.requests.len() ==> self.last_processed_request_id < (
            #[trigger] self.requests[i]).id <= self.last_request_id
        &&& forall|i: int, j: int|
            0 <= i < j < self.requests.len() ==> (#[trigger] self.requests[i]).id < (
            #[trigger] self.requests[j]).id
        &&& self.liquidity_supply == total_liquidity(self.requests)
    }

    /// The queue after `request` was made.
    pub open spec fn with_request(self, request: WithdrawalRequest) -> Self {
        WithdrawalRequestsView {
            last_request_id: request.id,
            liquidity_supply: (self.liquidity_supply + request.liquidity_amount) as u64,
            requests: self.requests.push(request),
            ..self
        }
    }

    /// The queue after the request at `position` was canceled.
    pub open spec fn without(self, position: int) -> Self {
        WithdrawalRequestsView {
            liquidity_supply: (self.liquidity_supply - self.requests[position].liquidity_amount) as u64,
            requests: self.requests.remove(position),
            ..self
        }
    }

    /// The number up to which all requests are done after a round that fulfilled the
    /// first `count` requests: just before the request that stopped the round, or
    /// else `up_to_id`, but never less than before nor more than were made.
    pub open spec fn processed_up_to(self, up_to_id: u64, count: int) -> u64 {
        if count < self.requests.len() && self.requests[count].id <= up_to_id {
            (self.requests[count].id - 1) as u64
        } else if up_to_id <= self.last_processed_request_id {
            self.last_processed_request_id
        } else if up_to_id >= self.last_request_id {
            self.last_request_id
        } else {
            up_to_id
        }
    }

    /// The queue after a round that fulfilled the first `count` requests.
    pub open spec fn after_processing(self, up_to_id: u64, count: int) -> Self {
        WithdrawalRequestsView {
            last_processed_request_id: self.processed_up_to(up_to_id, count),
            liquidity_supply: (self.liquidity_supply - total_liquidity(self.requests.take(count))) as u64,
            requests: self.requests.skip(count),
            ..self
        }
    }
}

impl View for WithdrawalRequests {
    type V = WithdrawalRequestsView;

    open spec fn view(&self) -> WithdrawalRequestsView {
        WithdrawalRequestsView {
            account_type: self.account_type,
            pool: self.pool,
            mint: self.mint,
            last_request_id: self.last_request_id,
            last_processed_request_id: self.last_processed_request_id,
            liquidity_supply: self.liquidity_supply,
            requests: self.requests@,
        }
    }
}

/// What making a request yields: the liquidity that the shares are worth, unless the
/// outstanding requests would then be worth more than the pool holds, or the numbers
/// of requests are used up.
pub open spec fn request_outcome(
    queue: WithdrawalRequestsView,
    pool: Pool,
    pool_mint_supply: u64,
    share_amount: u64,
) -> Result<u64, EverlendError> {
    let liquidity = liquidity_for_shares(share_amount, pool.total_liquidity_supply, pool_mint_supply);
    if queue.liquidity_supply + liquidity > pool.total_liquidity_supply {
        Err(EverlendError::InsufficientFunds)
    } else if queue.last_request_id == u64::MAX {
        Err(EverlendError::MathOverflow)
    } else {
        Ok(liquidity as u64)
    }
}

/// What canceling yields: the request, unless none has the number or the caller does
/// not own it.
pub open spec fn cancel_outcome(queue: WithdrawalRequestsView, id: u64, caller: Pubkey) -> Result<
    WithdrawalRequest,
    EverlendError,
> {
    if !has_request(queue.requests, id) {
        Err(EverlendError::AccountNotFound)
    } else if queue.requests[position_of(queue.requests, id)].rent_payer != caller {
        Err(EverlendError::InvalidAccountOwner)
    } else {
        Ok(queue.requests[position_of(queue.requests, id)])
    }
}

impl WithdrawalRequests {
    /// The invariant of the queue.
    pub open spec fn wf(self) -> bool {
        self@.wf()
    }

    /// The empty queue of a pool.
    pub fn new(pool: Pubkey, mint: Pubkey) -> (queue: Self)
        ensures
            queue.wf(),
            queue@ == (WithdrawalRequestsView {
                account_type: AccountType::WithdrawalRequests,
                pool,
                mint,
                last_request_id: 0,
                last_processed_request_id: 0,
                liquidity_supply: 0,
                requests: Seq::empty(),
            }),
    {
        WithdrawalRequests {
            account_type: AccountType::WithdrawalRequests,
            pool,
            mint,
            last_request_id: 0,
            last_processed_request_id: 0,
            liquidity_supply: 0,
            requests: Vec::new(),
        }
    }

    /// The position of the outstanding request with this number.
    pub fn find(&self, id: u64) -> (found: Option<usize>)
        requires
            self.wf(),
        ensures
            found is Some == has_request(self.requests@, id),
            found matches Some(i) ==> i == position_of(self.requests@, id) && i < self.requests@.len()
                && self.requests@[i as int].id == id,
    {
        let mut i: usize = 0;
        while i < self.requests.len()
            invariant
                self.wf(),
                i <= self.requests@.len(),
                forall|j: int| 0 <= j < i ==> (#[trigger] self.requests@[j]).id != id,
            decreases self.requests@.len() - i,
        {
            if self.requests[i].id == id {
                proof {
                    let p = position_of(self.requests@, id);
                    assert(self.requests@[i as int].id == id);
                    assert(self.requests@[p].id == id);
                    if p < i {
                        assert(self.requests@[p].id < self.requests@[i as int].id);
                    }
                    if i < p {
                        assert(self.requests@[i as int].id < self.requests@[p].id);
                    }
                }
                return Some(i);
            }
            i += 1;
        }
        None
    }

    /// The outstanding request with this number.
    pub fn get(&self, id: u64) -> (request: Option<WithdrawalRequest>)
        requires
            self.wf(),
        ensures
            request is Some == has_request(self.requests@, id),
            request matches Some(r) ==> r == self.requests@[position_of(self.requests@, id)],
    {
        match self.find(id) {
            Some(i) => Some(self.requests[i]),
            None => None,
        }
    }

    /// Makes a request to redeem `share_amount` shares.
    ///
    /// The request is worth the liquidity of the shares at the pool's current price
    /// and gets the next number. The shares are not burned: the host moves them into
    /// custody, so that a cancellation can give them back. The request is refused,
    /// and the queue unchanged, where the outstanding requests would be worth more
    /// than the pool holds.
    pub fn withdraw_request(
        &mut self,
        pool: &Pool,
        pool_mint_supply: u64,
        rent_payer: Pubkey,
        source: Pubkey,
        destination: Pubkey,
        share_amount: u64,
    ) -> (result: Result<WithdrawalRequest, EverlendError>)
        requires
            old(self).wf(),
        ensures
            final(self).wf(),
            match result {
                Ok(request) => {
                    &&& request_outcome(old(self)@, *pool, pool_mint_supply, share_amount) == Ok::<
                        u64,
                        EverlendError,
                    >(request.liquidity_amount)
                    &&& request == (WithdrawalRequest {
                        id: (old(self).last_request_id + 1) as u64,
                        rent_payer,
                        source,
                        destination,
                        liquidity_amount: request.liquidity_amount,
                        collateral_amount: share_amount,
                    })
                    &&& final(self)@ == old(self)@.with_request(request)
                },
                Err(error) => {
                    &&& request_outcome(old(self)@, *pool, pool_mint_supply, share_amount) == Err::<
                        u64,
                        EverlendError,
                    >(error)
                    &&& final(self)@ == old(self)@
                },
            },
    {
        let liquidity = match shares_to_liquidity(share_amount, pool.total_liquidity_supply, pool_mint_supply) {
            Some(liquidity) => liquidity,
            None => {
                return Err(EverlendError::InsufficientFunds);
            },
        };
        if liquidity > pool.total_liquidity_supply || self.liquidity_supply > pool.total_liquidity_supply
            - liquidity {
            return Err(EverlendError::InsufficientFunds);
        }
        if self.last_request_id == u64::MAX {
            return Err(EverlendError::MathOverflow);
        }
        let request = WithdrawalRequest {
            id: self.last_request_id + 1,
            rent_payer,
            source,
            destination,
            liquidity_amount: liquidity,
            collateral_amount: share_amount,
        };
        proof {
            lemma_sum_by_push(self.requests@, request, liquidity_of());
        }
        self.requests.push(request);
        self.last_request_id = request.id;
        self.liquidity_supply = self.liquidity_supply + liquidity;
        Ok(request)
    }

    /// Cancels the outstanding request with the number `id` for its owner.
    ///
    /// The request leaves the queue and the liquidity supply falls by what it was
    /// worth; the counters stay. The host gives the shares in custody back to the
    /// source and the storage payment back to the owner; no liquidity moves. A request
    /// that was fulfilled or canceled before is not found.
    pub fn cancel(&mut self, id: u64, caller: &Pubkey) -> (result: Result<WithdrawalRequest, EverlendError>)
        requires
            old(self).wf(),
        ensures
            final(self).wf(),
            result == cancel_outcome(old(self)@, id, *caller),
            result is Ok ==> final(self)@ == old(self)@.without(position_of(old(self).requests@, id)),
            result is Err ==> final(self)@ == old(self)@,
    {
        let position = match self.find(id) {
            Some(position) => position,
            None => {
                return Err(EverlendError::AccountNotFound);
            },
        };
        if self.requests[position].rent_payer != *caller {
            return Err(EverlendError::InvalidAccountOwner);
        }
        proof {
            lemma_sum_by_remove(self.requests@, position as int, liquidity_of());
            lemma_sum_by_split(self.requests@.remove(position as int), 0, liquidity_of());
            crate::math::lemma_sum_by_nonnegative(self.requests@.remove(position as int), liquidity_of());
        }
        let request = self.requests.remove(position);
        self.liquidity_supply = self.liquidity_supply - request.liquidity_amount;
        Ok(request)
    }

    /// Fulfills outstanding requests up to the number `up_to_id`, oldest first, from
    /// the liquidity that the pool holds.
    ///
    /// Each fulfilled request leaves the queue and takes its liquidity off the pool
    /// and off the liquidity supply. The round stops before the first request that
    /// the pool cannot pay and reports `InsufficientFunds`; what was fulfilled before
    /// stays fulfilled, and no later request is served in its place.
    pub fn process_withdrawals(&mut self, pool: &mut Pool, up_to_id: u64) -> (processed: ProcessedWithdrawals)
        requires
            old(self).wf(),
        ensures
            final(self).wf(),
            ({
                let count = fundable_prefix(
                    old(self).requests@,
                    up_to_id,
                    old(pool).total_liquidity_supply as int,
                ) as int;
                &&& count <= old(self).requests@.len()
                &&& processed.fulfilled@ == old(self).requests@.take(count)
                &&& final(self)@ == old(self)@.after_processing(up_to_id, count)
                &&& *final(pool) == (Pool {
                    total_liquidity_supply: (old(pool).total_liquidity_supply - total_liquidity(
                        old(self).requests@.take(count),
                    )) as u64,
                    ..*old(pool)
                })
                &&& processed.result == if count < old(self).requests@.len() && old(self).requests@[count].id
                    <= up_to_id {
                    Err::<(), EverlendError>(EverlendError::InsufficientFunds)
                } else {
                    Ok::<(), EverlendError>(())
                }
            }),
    {
        let ghost before = self.requests@;
        let ghost available = pool.total_liquidity_supply as int;
        let mut count: usize = 0;
        let mut paid: u64 = 0;
        let mut stopped = false;
        proof {
            assert(before.skip(0) =~= before);
        }
        while count < self.requests.len() && self.requests[count].id <= up_to_id
            invariant_except_break
                self.requests@ == before,
                count <= before.len(),
                paid == total_liquidity(before.take(count as int)),
                paid <= pool.total_liquidity_supply == available,
                fundable_prefix(before, up_to_id, available) == count + fundable_prefix(
                    before.skip(count as int),
                    up_to_id,
                    available - paid,
                ),
                !stopped,
            ensures
                self.requests@ == before,
                count <= before.len(),
                paid == total_liquidity(before.take(count as int)),
                paid <= pool.total_liquidity_supply == available,
                fundable_prefix(before, up_to_id, available) == count,
                stopped == (count < before.len() && before[count as int].id <= up_to_id),
            decreases before.len() - count,
        {
            let request = self.requests[count];
            proof {
                assert(before.skip(count as int)[0] == before[count as int]);
                assert(before.skip(count as int).drop_first() =~= before.skip(count + 1));
                lemma_sum_by_take_next(before, count as int, liquidity_of());
            }
            if request.liquidity_amount > pool.total_liquidity_supply - paid {
                stopped = true;
                break ;
            }
            paid = paid + request.liquidity_amount;
            count += 1;
        }
        proof {
            if !stopped && count < before.len() {
                assert(before.skip(count as int)[0] == before[count as int]);
            }
            lemma_sum_by_split(before, count as int, liquidity_of());
            crate::math::lemma_sum_by_nonnegative(before.skip(count as int), liquidity_of());
        }
        let new_processed = if stopped {
            self.requests[count].id - 1
        } else if up_to_id <= self.last_processed_request_id {
            self.last_processed_request_id
        } else if up_to_id >= self.last_request_id {
            self.last_request_id
        } else {
            up_to_id
        };
        let mut fulfilled = self.requests.split_off(count);
        std::mem::swap(&mut self.requests, &mut fulfilled);
        self.last_processed_request_id = new_processed;
        self.liquidity_supply = self.liquidity_supply - paid;
        pool.total_liquidity_supply = pool.total_liquidity_supply - paid;
        proof {
            assert(fulfilled@ =~= before.take(count as int));
            assert(self.requests@ =~= before.skip(count as int));
            assert forall|i: int| 0 <= i < self.requests@.len() implies new_processed < (
            #[trigger] self.requests@[i]).id <= self.last_request_id by {
                assert(self.requests@[i] == before[count + i]);
                if stopped {
                    if i > 0 {
                        assert(before[count as int].id < before[count + i].id);
                    }
                } else {
                    if count < before.len() {
                        if i > 0 {
                            assert(before[count as int].id < before[count + i].id);
                        }
                    }
                }
            }
            assert forall|i: int, j: int| 0 <= i < j < self.requests@.len() implies (
            #[trigger] self.requests@[i]).id < (#[trigger] self.requests@[j]).id by {
                assert(self.requests@[i] == before[count + i]);
                assert(self.requests@[j] == before[count + j]);
            }
        }
        ProcessedWithdrawals {
            fulfilled,
            result: if stopped {
                Err(EverlendError::InsufficientFunds)
            } else {
                Ok(())
            },
        }
    }

    /// Tells whether the queue keeps its invariant.
    pub fn is_wf(&self) -> (ok: bool)
        ensures
            ok == self.wf(),
    {
        if self.last_processed_request_id > self.last_request_id {
            return false;
        }
        let mut total: u64 = 0;
        let mut i: usize = 0;
        while i < self.requests.len()
            invariant
                i <= self.requests@.len(),
                self.last_processed_request_id <= self.last_request_id,
                total == total_liquidity(self.requests@.take(i as int)),
                total <= self.liquidity_supply,
                forall|j: int|
                    0 <= j < i ==> self.last_processed_request_id < (#[trigger] self.requests@[j]).id
                        <= self.last_request_id,
                forall|j: int, k: int|
                    0 <= j < k < i ==> (#[trigger] self.requests@[j]).id < (#[trigger] self.requests@[k]).id,
            decreases self.requests@.len() - i,
        {
            let request = self.requests[i];
            if request.id <= self.last_processed_request_id || request.id > self.last_request_id {
                return false;
            }
            if i > 0 && self.requests[i - 1].id >= request.id {
                return false;
            }
            proof {
                lemma_sum_by_take_next(self.requests@, i as int, liquidity_of());
            }
            if request.liquidity_amount > self.liquidity_supply - total {
                proof {
                    lemma_sum_by_split(self.requests@, i + 1, liquidity_of());
                    crate::math::lemma_sum_by_nonnegative(self.requests@.skip(i + 1), liquidity_of());
                }
                return false;
            }
            total = total + request.liquidity_amount;
            proof {
                assert forall|j: int, k: int| 0 <= j < k < i + 1 implies (#[trigger] self.requests@[j]).id < (
                #[trigger] self.requests@[k]).id by {
                    if k == i && j < i - 1 {
                        assert(self.requests@[j].id < self.requests@[i - 1].id);
                    }
                }
            }
            i += 1;
        }
        proof {
            assert(self.requests@.take(self.requests@.len() as int) =~= self.requests@);
        }
        total == self.liquidity_supply
    }
}

/// Canceling any outstanding request takes exactly its liquidity off the liquidity
/// supply, leaves both counters and every other request as they were, and keeps the
/// invariant of the queue.
pub proof fn lemma_cancel_takes_only_the_request(queue: WithdrawalRequestsView, position: int)
    requires
        queue.wf(),
        0 <= position < queue.requests.len(),
    ensures
        queue.without(position).wf(),
        queue.without(position).liquidity_supply == queue.liquidity_supply
            - queue.requests[position].liquidity_amount,
        queue.without(position).last_request_id == queue.last_request_id,
        queue.without(position).last_processed_request_id == queue.last_processed_request_id,
        queue.without(position).requests == queue.requests.remove(position),
{
    lemma_sum_by_remove(queue.requests, position, liquidity_of());
    crate::math::lemma_sum_by_nonnegative(queue.requests.remove(position), liquidity_of());
    let after = queue.without(position);
    assert forall|i: int| 0 <= i < after.requests.len() implies after.last_processed_request_id < (
    #[trigger] after.requests[i]).id <= after.last_request_id by {
        if i < position {
            assert(after.requests[i] == queue.requests[i]);
        } else {
            assert(after.requests[i] == queue.requests[i + 1]);
        }
    }
    assert forall|i: int, j: int| 0 <= i < j < after.requests.len() implies (#[trigger] after.requests[i]).id
        < (#[trigger] after.requests[j]).id by {
        let a = if i < position {
            i
        } else {
            i + 1
        };
        let b = if j < position {
            j
        } else {
            j + 1
        };
        assert(after.requests[i] == queue.requests[a]);
        assert(after.requests[j] == queue.requests[b]);
    }
}

/// A request that is made and then canceled leaves the queue as it was before the
/// request, but for the number of the last request: the liquidity supply is back at
/// its earlier value, the cancellation changes neither counter, and the requests that
/// were outstanding before are outstanding still.
pub proof fn lemma_cancel_undoes_request(queue: WithdrawalRequestsView, request: WithdrawalRequest)
    requires
        queue.wf(),
        request.id == queue.last_request_id + 1,
        queue.liquidity_supply + request.liquidity_amount <= u64::MAX,
    ensures
        queue.with_request(request).wf(),
        has_request(queue.with_request(request).requests, request.id),
        ({
            let made = queue.with_request(request);
            let canceled = made.without(position_of(made.requests, request.id));
            &&& canceled.wf()
            &&& canceled.liquidity_supply == queue.liquidity_supply
            &&& canceled.requests == queue.requests
            &&& canceled.last_request_id == made.last_request_id
            &&& canceled.last_processed_request_id == made.last_processed_request_id
            &&& canceled.last_processed_request_id == queue.last_processed_request_id
        }),
{
    let made = queue.with_request(request);
    lemma_sum_by_push(queue.requests, request, liquidity_of());
    let last = queue.requests.len() as int;
    assert(made.requests[last] == request);
    assert forall|i: int| 0 <= i < made.requests.len() implies made.last_processed_request_id < (
    #[trigger] made.requests[i]).id <= made.last_request_id by {
        if i < last {
            assert(made.requests[i] == queue.requests[i]);
        }
    }
    assert forall|i: int, j: int| 0 <= i < j < made.requests.len() implies (#[trigger] made.requests[i]).id < (
    #[trigger] made.requests[j]).id by {
        assert(made.requests[i] == queue.requests[i]);
        if j < last {
            assert(made.requests[j] == queue.requests[j]);
        }
    }
    let position = position_of(made.requests, request.id);
    assert(made.requests[position].id == request.id);
    if position < last {
        assert(made.requests[position].id < made.requests[last].id);
    }
    assert(position == last);
    assert(made.requests.remove(last) =~= queue.requests);
    lemma_cancel_takes_only_the_request(made, position);
}

/// A round of processing serves strictly in the order of the requests: it fulfills a
/// run from the front of the queue and nothing behind it, every fulfilled request has
/// a smaller number than every request that stays, the liquidity pays all that were
/// fulfilled, and the first request that stays is beyond `up_to_id` or is one that
/// the liquidity left does not pay.
pub proof fn lemma_processing_is_fifo(queue: WithdrawalRequestsView, up_to_id: u64, available: int)
    requires
        queue.wf(),
    ensures
        ({
            let count = fundable_prefix(queue.requests, up_to_id, available) as int;
            &&& count <= queue.requests.len()
            &&& forall|i: int| 0 <= i < count ==> (#[trigger] queue.requests[i]).id <= up_to_id
            &&& count > 0 ==> total_liquidity(queue.requests.take(count)) <= available
            &&& forall|i: int, j: int|
                0 <= i < count <= j < queue.requests.len() ==> (#[trigger] queue.requests[i]).id < (
                #[trigger] queue.requests[j]).id
            &&& count < queue.requests.len() ==> queue.requests[count].id > up_to_id
                || queue.requests[count].liquidity_amount > available - total_liquidity(
                queue.requests.take(count),
            )
        }),
{
    lemma_fundable_prefix(queue.requests, up_to_id, available);
}

/// What the fundable run from the front of any requests is.
pub proof fn lemma_fundable_prefix(requests: Seq<WithdrawalRequest>, up_to_id: u64, available: int)
    ensures
        ({
            let count = fundable_prefix(requests, up_to_id, available) as int;
            &&& count <= requests.len()
            &&& forall|i: int| 0 <= i < count ==> (#[trigger] requests[i]).id <= up_to_id
            &&& count > 0 ==> total_liquidity(requests.take(count)) <= available
            &&& count == 0 ==> total_liquidity(requests.take(count)) == 0
            &&& count < requests.len() ==> requests[count].id > up_to_id || requests[count].liquidity_amount
                > available - total_liquidity(requests.take(count))
        }),
    decreases requests.len(),
{
    let count = fundable_prefix(requests, up_to_id, available) as int;
    if requests.len() == 0 || requests[0].id > up_to_id || requests[0].liquidity_amount > available {
        assert(count == 0);
        assert(requests.take(0) =~= Seq::<WithdrawalRequest>::empty());
    } else {
        let rest = requests.drop_first();
        let left = available - requests[0].liquidity_amount;
        lemma_fundable_prefix(rest, up_to_id, left);
        let inner = fundable_prefix(rest, up_to_id, left) as int;
        assert(count == inner + 1);
        assert forall|i: int| 0 <= i < count implies (#[trigger] requests[i]).id <= up_to_id by {
            if i > 0 {
                assert(requests[i] == rest[i - 1]);
            }
        }
        assert(requests.take(count) =~= seq![requests[0]] + rest.take(inner));
        crate::math::lemma_sum_by_concat(seq![requests[0]], rest.take(inner), liquidity_of());
        lemma_sum_by_push(Seq::<WithdrawalRequest>::empty(), requests[0], liquidity_of());
        assert(Seq::<WithdrawalRequest>::empty().push(requests[0]) =~= seq![requests[0]]);
        if count < requests.len() {
            assert(requests[count] == rest[inner]);
        }
    }
}

} // verus!
