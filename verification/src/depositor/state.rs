//! The rebalancing record of one asset: what each money market holds, the targets of
//! the last plan, its steps and how many of them are done.

use vstd::prelude::*;
use crate::depositor::mm::{check_deposit, deposit_check};
use crate::depositor::rebalancing::{
    apply_step,
    compute_targets,
    lemma_amount_within_total,
    lemma_run_len,
    lemma_run_split,
    lemma_targets_within_total,
    market_percent,
    market_percents,
    plan_steps,
    planned_steps,
    run,
    runnable,
    target_amount,
    total_amount,
    value_of,
    withdrawals_first,
    RebalancingOperation,
    RebalancingStep,
};
use crate::error::EverlendError;
use crate::general_pool::withdrawal::{fundable_prefix, total_liquidity, ProcessedWithdrawals, WithdrawalRequests};
use crate::general_pool::{reserve_outcome, Pool, PoolBorrowAuthority};
use crate::instruction::TransactionInstructions;
use crate::liquidity_oracle::TokenDistribution;
use crate::math::lemma_sum_by_take_next;
use crate::pubkey::Pubkey;
use crate::registry::{RegistryPrograms, TOTAL_DISTRIBUTIONS};
use crate::state::AccountType;

verus! {

/// The rebalancing of one asset.
#[derive(Debug)]
pub struct Rebalancing {
    /// Kind of the record.
    pub account_type: AccountType,
    /// Depositor that the record belongs to.
    pub depositor: Pubkey,
    /// Mint of the asset.
    pub mint: Pubkey,
    /// Tick of the distribution that the steps were planned for.
    pub distribution_updated_at: u64,
    /// Liquidity that each money market holds, by the index of the market.
    pub allocation: [u64; TOTAL_DISTRIBUTIONS],
    /// Liquidity that each money market holds once the steps are done.
    pub target: [u64; TOTAL_DISTRIBUTIONS],
    /// The steps of the plan.
    pub steps: Vec<RebalancingStep>,
    /// Number of steps that are done.
    pub cursor: usize,
}

/// The record as a value.
pub struct RebalancingView {
    pub account_type: AccountType,
    pub depositor: Pubkey,
    pub mint: Pubkey,
    pub distribution_updated_at: u64,
    pub allocation: Seq<u64>,
    pub target: Seq<u64>,
    pub steps: Seq<RebalancingStep>,
    pub cursor: int,
}

/// How a call to start a rebalancing ended.
#[derive(Clone, Copy, Debug, PartialEq, Eq, Structural)]
pub enum RebalancingStatus {
    /// Steps of the earlier plan are left: the rebalancing goes on from its cursor.
    Resumed,
    /// A new plan was made from what the money markets hold now.
    Planned,
}

impl RebalancingView {
    /// The invariant of the record: the cursor is within the steps, withdrawals come
    /// before deposits, and the steps that are left can be taken in turn and lead
    /// from the allocation to the target.
    pub open spec fn wf(self) -> bool {
        &&& self.allocation.len() == TOTAL_DISTRIBUTIONS
        &&& self.target.len() == TOTAL_DISTRIBUTIONS
        &&& 0 <= self.cursor <= self.steps.len()
        &&& withdrawals_first(self.steps)
        &&& runnable(self.allocation, self.steps.skip(self.cursor))
        &&& run(self.allocation, self.steps.skip(self.cursor)) == self.target
    }

    /// Whether steps are left.
    pub open spec fn in_flight(self) -> bool {
        self.cursor < self.steps.len()
    }

    /// The record after the next `count` steps were taken.
    pub open spec fn after_steps(self, count: int) -> Self {
        RebalancingView {
            allocation: run(self.allocation, self.steps.subrange(self.cursor, self.cursor + count)),
            cursor: self.cursor + count,
            ..self
        }
    }

    /// The liquidity under management: what the pool holds and what the money markets
    /// hold.
    pub open spec fn total_managed(self, pool_liquidity: u64) -> int {
        pool_liquidity + total_amount(self.allocation)
    }

    /// The targets under a distribution: for each money market its share of the
    /// liquidity under management.
    pub open spec fn targets(self, registry: RegistryPrograms, distribution: TokenDistribution, pool_liquidity: u64) -> Seq<
        u64,
    > {
        Seq::new(
            TOTAL_DISTRIBUTIONS as nat,
            |i: int|
                target_amount(
                    self.total_managed(pool_liquidity) as u64,
                    market_percent(registry, distribution.distribution@, i) as u64,
                ) as u64,
        )
    }

    /// The record with a new plan for a distribution, made from the allocation.
    pub open spec fn planned(self, registry: RegistryPrograms, distribution: TokenDistribution, pool_liquidity: u64) -> Self {
        let target = self.targets(registry, distribution, pool_liquidity);
        RebalancingView {
            distribution_updated_at: distribution.updated_at,
            target,
            steps: planned_steps(self.allocation, target),
            cursor: 0,
            ..self
        }
    }
}

impl View for Rebalancing {
    type V = RebalancingView;

    open spec fn view(&self) -> RebalancingView {
        RebalancingView {
            account_type: self.account_type,
            depositor: self.depositor,
            mint: self.mint,
            distribution_updated_at: self.distribution_updated_at,
            allocation: self.allocation@,
            target: self.target@,
            steps: self.steps@,
            cursor: self.cursor as int,
        }
    }
}

/// What starting a rebalancing yields, the first failing test deciding. An earlier
/// plan with steps left goes on unless the distribution is newer than the plan.
pub open spec fn start_outcome(record: RebalancingView, distribution: TokenDistribution, pool_liquidity: u64) -> Result<
    RebalancingStatus,
    EverlendError,
> {
    if distribution.account_type != AccountType::TokenDistribution {
        Err(EverlendError::InvalidAccountData)
    } else if distribution.token_mint != record.mint {
        Err(EverlendError::InvalidArgument)
    } else if record.in_flight() && distribution.updated_at <= record.distribution_updated_at {
        Ok(RebalancingStatus::Resumed)
    } else if record.total_managed(pool_liquidity) > u64::MAX {
        Err(EverlendError::MathOverflow)
    } else {
        Ok(RebalancingStatus::Planned)
    }
}

/// What executing the next step yields, the first failing test deciding: no step is
/// left, the money market instruction does not verify, or the pool cannot take or
/// give the liquidity; else the step.
pub open spec fn step_outcome(
    record: RebalancingView,
    pool: Pool,
    authority: PoolBorrowAuthority,
    registry: RegistryPrograms,
    instructions: TransactionInstructions,
) -> Result<RebalancingStep, EverlendError> {
    if !record.in_flight() {
        Err(EverlendError::InvalidRebalancingOperation)
    } else {
        let step = record.steps[record.cursor];
        match deposit_check(
            instructions.current_index,
            instructions.money_market_instruction.program_id,
            instructions.money_market_instruction.data@,
            registry.money_market_program_ids@[step.money_market_index as int],
            step.amount,
        ) {
            Err(error) => Err(error),
            Ok(_) => match step.operation {
                RebalancingOperation::Withdraw => if pool.total_liquidity_supply + step.amount > u64::MAX {
                    Err(EverlendError::MathOverflow)
                } else {
                    Ok(step)
                },
                RebalancingOperation::Deposit => match reserve_outcome(pool, authority, step.amount) {
                    Err(error) => Err(error),
                    Ok(_) => Ok(step),
                },
            },
        }
    }
}

impl Rebalancing {
    /// The invariant of the record.
    pub open spec fn wf(self) -> bool {
        self@.wf()
    }

    /// The record of an asset before its first rebalancing: nothing is held in any
    /// money market and no step is planned.
    pub fn new(depositor: Pubkey, mint: Pubkey) -> (record: Self)
        ensures
            record.wf(),
            record.account_type == AccountType::Rebalancing,
            record.depositor == depositor,
            record.mint == mint,
            record.distribution_updated_at == 0,
            record.steps@.len() == 0,
            record.cursor == 0,
            forall|i: int| 0 <= i < TOTAL_DISTRIBUTIONS ==> #[trigger] record.allocation@[i] == 0,
            record.target@ == record.allocation@,
    {
        let record = Rebalancing {
            account_type: AccountType::Rebalancing,
            depositor,
            mint,
            distribution_updated_at: 0,
            allocation: [0u64; TOTAL_DISTRIBUTIONS],
            target: [0u64; TOTAL_DISTRIBUTIONS],
            steps: Vec::new(),
            cursor: 0,
        };
        proof {
            assert(record.target@ =~= record.allocation@);
            assert(record.steps@.skip(0) =~= record.steps@);
        }
        record
    }

    /// The step that comes next, if one is left.
    pub fn next_step(&self) -> (step: Option<RebalancingStep>)
        ensures
            step == if self@.in_flight() {
                Some(self.steps@[self.cursor as int])
            } else {
                None
            },
    {
        if self.cursor < self.steps.len() {
            Some(self.steps[self.cursor])
        } else {
            None
        }
    }

    /// Starts a rebalancing of the asset, or goes on with the one in flight.
    ///
    /// Where steps of an earlier plan are left and the distribution is not newer than
    /// that plan, nothing is computed anew: the record stays as it is and the steps go
    /// on from the cursor. Otherwise the earlier plan is dropped and a new one is made
    /// from what the money markets hold now: the liquidity under management is what
    /// the pool holds plus what the markets hold, each market's target is its share
    /// of that, and the steps are all withdrawals, then all deposits. On failure the
    /// record is unchanged.
    pub fn start(
        &mut self,
        registry: &RegistryPrograms,
        distribution: &TokenDistribution,
        pool_liquidity: u64,
    ) -> (result: Result<RebalancingStatus, EverlendError>)
        requires
            old(self).wf(),
            distribution.wf(),
        ensures
            final(self).wf(),
            result == start_outcome(old(self)@, *distribution, pool_liquidity),
            result == Ok::<RebalancingStatus, EverlendError>(RebalancingStatus::Planned) ==> {
                &&& final(self)@ == old(self)@.planned(*registry, *distribution, pool_liquidity)
                &&& total_amount(final(self).target@) <= old(self)@.total_managed(pool_liquidity)
            },
            !(result == Ok::<RebalancingStatus, EverlendError>(RebalancingStatus::Planned)) ==> final(self)@
                == old(self)@,
    {
        if distribution.account_type != AccountType::TokenDistribution {
            return Err(EverlendError::InvalidAccountData);
        }
        if distribution.token_mint != self.mint {
            return Err(EverlendError::InvalidArgument);
        }
        if self.cursor < self.steps.len() && distribution.updated_at <= self.distribution_updated_at {
            return Ok(RebalancingStatus::Resumed);
        }
        let mut total: u128 = pool_liquidity as u128;
        let mut i: usize = 0;
        while i < TOTAL_DISTRIBUTIONS
            invariant
                i <= TOTAL_DISTRIBUTIONS,
                total == pool_liquidity + total_amount(self.allocation@.take(i as int)),
                total <= (i + 1) * 0xffff_ffff_ffff_ffff,
            decreases TOTAL_DISTRIBUTIONS - i,
        {
            proof {
                lemma_sum_by_take_next(self.allocation@, i as int, value_of());
            }
            total = total + self.allocation[i] as u128;
            i += 1;
        }
        proof {
            assert(self.allocation@.take(TOTAL_DISTRIBUTIONS as int) =~= self.allocation@);
        }
        if total > u64::MAX as u128 {
            return Err(EverlendError::MathOverflow);
        }
        let total_managed = total as u64;
        let percents = market_percents(registry, distribution);
        proof {
            assert forall|i: int| 0 <= i < TOTAL_DISTRIBUTIONS implies #[trigger] percents@[i] <= 10_000 by {
                lemma_amount_within_total(percents@, i);
            }
        }
        let target = compute_targets(total_managed, &percents);
        let steps = plan_steps(&self.allocation, &target);
        proof {
            lemma_targets_within_total(total_managed, percents@, target@);
            assert(target@ =~= old(self)@.targets(*registry, *distribution, pool_liquidity));
            assert(steps@.skip(0) =~= steps@);
        }
        self.distribution_updated_at = distribution.updated_at;
        self.target = target;
        self.steps = steps;
        self.cursor = 0;
        Ok(RebalancingStatus::Planned)
    }

    /// Executes the next step of the plan.
    ///
    /// The step counts as done only if the transaction shows it: the verifying
    /// instruction is the first of its transaction, and the instruction before it
    /// targets the trusted program of the step's money market with exactly the step's
    /// amount. A withdrawal then returns its liquidity to the pool; a deposit draws
    /// its liquidity from the pool under the borrow authority. On success the money
    /// market holds the new amount and the cursor moves on by one; on failure the
    /// record, the pool and the authority are unchanged.
    pub fn execute_step(
        &mut self,
        pool: &mut Pool,
        authority: &mut PoolBorrowAuthority,
        registry: &RegistryPrograms,
        instructions: &TransactionInstructions,
    ) -> (result: Result<RebalancingStep, EverlendError>)
        requires
            old(self).wf(),
        ensures
            final(self).wf(),
            result == step_outcome(old(self)@, *old(pool), *old(authority), *registry, *instructions),
            result is Ok ==> {
                &&& final(self)@ == old(self)@.after_steps(1)
                &&& final(self).allocation@ == apply_step(
                    old(self).allocation@,
                    old(self).steps@[old(self).cursor as int],
                )
            },
            match result {
                Ok(step) => match step.operation {
                    RebalancingOperation::Withdraw => {
                        &&& *final(pool) == (Pool {
                            total_liquidity_supply: (old(pool).total_liquidity_supply + step.amount) as u64,
                            ..*old(pool)
                        })
                        &&& *final(authority) == (PoolBorrowAuthority {
                            amount_borrowed: if step.amount >= old(authority).amount_borrowed {
                                0
                            } else {
                                (old(authority).amount_borrowed - step.amount) as u64
                            },
                            ..*old(authority)
                        })
                    },
                    RebalancingOperation::Deposit => {
                        &&& *final(pool) == (Pool {
                            total_liquidity_supply: (old(pool).total_liquidity_supply - step.amount) as u64,
                            ..*old(pool)
                        })
                        &&& *final(authority) == (PoolBorrowAuthority {
                            amount_borrowed: (old(authority).amount_borrowed + step.amount) as u64,
                            ..*old(authority)
                        })
                    },
                },
                Err(_) => true,
            },
            result is Err ==> final(self)@ == old(self)@ && *final(pool) == *old(pool) && *final(authority)
                == *old(authority),
    {
        if self.cursor >= self.steps.len() {
            return Err(EverlendError::InvalidRebalancingOperation);
        }
        let step = self.steps[self.cursor];
        let ghost left = self.steps@.skip(self.cursor as int);
        proof {
            assert(left[0] == step);
            assert(left.drop_first() =~= self.steps@.skip(self.cursor + 1));
            assert(self.steps@.subrange(self.cursor as int, self.cursor + 1) =~= seq![step]);
            assert(seq![step].drop_first() =~= Seq::<RebalancingStep>::empty());
            assert(run(self.allocation@, seq![step]) == run(
                apply_step(self.allocation@, seq![step][0]),
                seq![step].drop_first(),
            ));
        }
        let market = step.money_market_index as usize;
        match check_deposit(instructions, &registry.money_market_program_ids[market], step.amount) {
            Ok(_) => {},
            Err(error) => {
                return Err(error);
            },
        }
        match step.operation {
            RebalancingOperation::Withdraw => {
                match pool.return_liquidity(authority, step.amount) {
                    Ok(_) => {},
                    Err(error) => {
                        return Err(error);
                    },
                }
                self.allocation[market] = self.allocation[market] - step.amount;
            },
            RebalancingOperation::Deposit => {
                match pool.reserve_liquidity(authority, step.amount) {
                    Ok(_) => {},
                    Err(error) => {
                        return Err(error);
                    },
                }
                self.allocation[market] = self.allocation[market] + step.amount;
            },
        }
        self.cursor = self.cursor + 1;
        Ok(step)
    }

    /// Pays the withdrawal requests of the pool once the steps are done.
    ///
    /// While steps are left nothing is paid. After the last step every outstanding
    /// request is served in its order from the liquidity that the pool now holds, as
    /// a round of processing up to the last request does.
    pub fn settle_withdrawals(&self, queue: &mut WithdrawalRequests, pool: &mut Pool) -> (result: Result<
        ProcessedWithdrawals,
        EverlendError,
    >)
        requires
            old(queue).wf(),
        ensures
            final(queue).wf(),
            result is Err == self@.in_flight(),
            match result {
                Err(error) => {
                    &&& error == EverlendError::InvalidRebalancingOperation
                    &&& final(queue)@ == old(queue)@
                    &&& *final(pool) == *old(pool)
                },
                Ok(processed) => {
                    let up_to_id = old(queue).last_request_id;
                    let count = fundable_prefix(
                        old(queue).requests@,
                        up_to_id,
                        old(pool).total_liquidity_supply as int,
                    ) as int;
                    &&& count <= old(queue).requests@.len()
                    &&& processed.fulfilled@ == old(queue).requests@.take(count)
                    &&& final(queue)@ == old(queue)@.after_processing(up_to_id, count)
                    &&& *final(pool) == (Pool {
                        total_liquidity_supply: (old(pool).total_liquidity_supply - total_liquidity(
                            old(queue).requests@.take(count),
                        )) as u64,
                        ..*old(pool)
                    })
                    &&& processed.result == if count < old(queue).requests@.len() {
                        Err::<(), EverlendError>(EverlendError::InsufficientFunds)
                    } else {
                        Ok::<(), EverlendError>(())
                    }
                },
            },
    {
        if self.cursor < self.steps.len() {
            return Err(EverlendError::InvalidRebalancingOperation);
        }
        let up_to_id = queue.last_request_id;
        Ok(queue.process_withdrawals(pool, up_to_id))
    }

    /// Tells whether the record keeps its invariant.
    pub fn is_wf(&self) -> (ok: bool)
        ensures
            ok == self.wf(),
    {
        if self.cursor > self.steps.len() {
            return false;
        }
        let mut seen_deposit = false;
        let ghost mut first_deposit: int = 0;
        let mut i: usize = 0;
        while i < self.steps.len()
            invariant
                i <= self.steps@.len(),
                seen_deposit ==> 0 <= first_deposit < i && self.steps@[first_deposit].operation
                    == RebalancingOperation::Deposit,
                !seen_deposit ==> forall|a: int|
                    0 <= a < i ==> (#[trigger] self.steps@[a]).operation == RebalancingOperation::Withdraw,
                forall|a: int, b: int|
                    0 <= a < b < i ==> !((#[trigger] self.steps@[a]).operation == RebalancingOperation::Deposit
                        && (#[trigger] self.steps@[b]).operation == RebalancingOperation::Withdraw),
            decreases self.steps@.len() - i,
        {
            match self.steps[i].operation {
                RebalancingOperation::Withdraw => {
                    if seen_deposit {
                        assert(!withdrawals_first(self.steps@)) by {
                            assert(self.steps@[first_deposit].operation == RebalancingOperation::Deposit);
                            assert(self.steps@[i as int].operation == RebalancingOperation::Withdraw);
                        }
                        return false;
                    }
                },
                RebalancingOperation::Deposit => {
                    if !seen_deposit {
                        proof {
                            first_deposit = i as int;
                        }
                    }
                    seen_deposit = true;
                },
            }
            i += 1;
        }
        let ghost left = self.steps@.skip(self.cursor as int);
        let mut current = self.allocation;
        let mut i: usize = self.cursor;
        proof {
            assert(self.steps@.subrange(self.cursor as int, self.cursor as int) =~= Seq::<
                RebalancingStep,
            >::empty());
        }
        while i < self.steps.len()
            invariant
                self.cursor <= i <= self.steps@.len(),
                left == self.steps@.skip(self.cursor as int),
                withdrawals_first(self.steps@),
                runnable(self.allocation@, self.steps@.subrange(self.cursor as int, i as int)),
                current@ == run(self.allocation@, self.steps@.subrange(self.cursor as int, i as int)),
            decreases self.steps@.len() - i,
        {
            let step = self.steps[i];
            let market = step.money_market_index as usize;
            let ghost done = self.steps@.subrange(self.cursor as int, i as int);
            proof {
                lemma_run_split(self.allocation@, left, i - self.cursor);
                assert(left.take(i - self.cursor) =~= done);
                assert(left.skip(i - self.cursor)[0] == step);
            }
            if market >= TOTAL_DISTRIBUTIONS || step.amount == 0 {
                return false;
            }
            let applies = match step.operation {
                RebalancingOperation::Withdraw => step.amount <= current[market],
                RebalancingOperation::Deposit => step.amount <= u64::MAX - current[market],
            };
            if !applies {
                return false;
            }
            proof {
                crate::depositor::rebalancing::lemma_run_push(self.allocation@, done, step);
                assert(done.push(step) =~= self.steps@.subrange(self.cursor as int, i + 1));
            }
            match step.operation {
                RebalancingOperation::Withdraw => {
                    current[market] = current[market] - step.amount;
                },
                RebalancingOperation::Deposit => {
                    current[market] = current[market] + step.amount;
                },
            }
            i += 1;
        }
        proof {
            assert(self.steps@.subrange(self.cursor as int, self.steps@.len() as int) =~= left);
        }
        let mut i: usize = 0;
        while i < TOTAL_DISTRIBUTIONS
            invariant
                i <= TOTAL_DISTRIBUTIONS,
                current@ == run(self.allocation@, self.steps@.skip(self.cursor as int)),
                forall|j: int| 0 <= j < i ==> current@[j] == self.target@[j],
            decreases TOTAL_DISTRIBUTIONS - i,
        {
            if current[i] != self.target[i] {
                return false;
            }
            i += 1;
        }
        proof {
            assert(current@ =~= self.target@);
        }
        true
    }

    /// Changes which pools the record belongs to. This is not implemented: the call
    /// fails at once and changes nothing.
    pub fn migrate(&self) -> (result: Result<(), EverlendError>)
        ensures
            result == Err::<(), EverlendError>(EverlendError::NotImplemented),
    {
        Err(EverlendError::NotImplemented)
    }
}

/// Going on from the cursor gives what one pass gives: taking some of the steps that
/// are left, and later the rest, leaves the allocation and the cursor that taking
/// them all at once leaves; and once no step is left, the allocation is the target.
pub proof fn lemma_resume_equals_single_pass(record: RebalancingView, first: int, second: int)
    requires
        record.wf(),
        0 <= first,
        0 <= second,
        record.cursor + first + second <= record.steps.len(),
    ensures
        record.after_steps(first).wf(),
        record.after_steps(first).after_steps(second) == record.after_steps(first + second),
        record.cursor + first + second == record.steps.len() ==> record.after_steps(first).after_steps(
            second,
        ).allocation == record.target,
{
    let left = record.steps.skip(record.cursor);
    let both = record.steps.subrange(record.cursor, record.cursor + first + second);
    assert(both =~= left.take(first + second));
    assert(record.steps.subrange(record.cursor, record.cursor + first) =~= both.take(first));
    assert(record.steps.subrange(record.cursor + first, record.cursor + first + second) =~= both.skip(first));
    lemma_run_split(record.allocation, both, first);
    lemma_run_split(record.allocation, left, first + second);
    lemma_run_split(record.allocation, left, first);
    assert(left.take(first) =~= both.take(first));
    assert(left.skip(first) =~= record.steps.skip(record.cursor + first));
    lemma_run_len(record.allocation, left.take(first));
    let middle = record.after_steps(first);
    assert(middle.steps.subrange(middle.cursor, middle.cursor + second) =~= both.skip(first));
    if record.cursor + first + second == record.steps.len() {
        assert(left.take(first + second) =~= left);
    }
}

} // verus!
