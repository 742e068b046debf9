//! Rebalancing: the steps that bring what each money market holds to its target, and
//! the record that carries a rebalancing across calls.

use vstd::prelude::*;
use crate::liquidity_oracle::{percent_of, total_percent, LiquidityDistribution, TokenDistribution, FULL_PERCENT_BPS};
use crate::math::{
    lemma_div_bounds,
    lemma_sum_by_nonnegative,
    lemma_sum_by_prefix_le,
    lemma_sum_by_remove,
    lemma_sum_by_take_next,
    lemma_sum_by_update,
    sum_by,
};
use crate::registry::{RegistryPrograms, TOTAL_DISTRIBUTIONS};

verus! {

/// The direction of a step.
#[derive(Clone, Copy, Debug, PartialEq, Eq, Structural)]
pub enum RebalancingOperation {
    /// Liquidity leaves the money market.
    Withdraw,
    /// Liquidity enters the money market.
    Deposit,
}

/// One movement of liquidity between the pool and a money market, through the transit
/// account of the asset.
#[derive(Clone, Copy, Debug, PartialEq, Eq, Structural)]
pub struct RebalancingStep {
    /// Index of the money market in the registry.
    pub money_market_index: u8,
    /// Direction of the movement.
    pub operation: RebalancingOperation,
    /// Liquidity that moves.
    pub amount: u64,
}

/// An amount, as a number.
pub open spec fn value_of() -> spec_fn(u64) -> int {
    |amount: u64| amount as int
}

/// The sum of amounts.
pub open spec fn total_amount(amounts: Seq<u64>) -> int {
    sum_by(amounts, value_of())
}

/// The target of a money market: its share of the managed liquidity, rounded down.
pub open spec fn target_amount(total_managed: u64, percent_bps: u64) -> int {
    total_managed * percent_bps / 10_000
}

/// Whether a step can be taken on an allocation: it names a money market, moves
/// something, withdraws no more than the market holds and deposits no more than fits.
pub open spec fn step_applies(allocation: Seq<u64>, step: RebalancingStep) -> bool {
    &&& step.money_market_index < allocation.len()
    &&& step.amount > 0
    &&& match step.operation {
        RebalancingOperation::Withdraw => step.amount <= allocation[step.money_market_index as int],
        RebalancingOperation::Deposit => allocation[step.money_market_index as int] + step.amount
            <= u64::MAX,
    }
}

/// The allocation after a step.
pub open spec fn apply_step(allocation: Seq<u64>, step: RebalancingStep) -> Seq<u64> {
    let market = step.money_market_index as int;
    match step.operation {
        RebalancingOperation::Withdraw => allocation.update(market, (allocation[market] - step.amount) as u64),
        RebalancingOperation::Deposit => allocation.update(market, (allocation[market] + step.amount) as u64),
    }
}

/// Whether steps can be taken one after the other, starting from an allocation.
pub open spec fn runnable(allocation: Seq<u64>, steps: Seq<RebalancingStep>) -> bool
    decreases steps.len(),
{
    steps.len() == 0 || (step_applies(allocation, steps[0]) && runnable(
        apply_step(allocation, steps[0]),
        steps.drop_first(),
    ))
}

/// The allocation after steps were taken one after the other.
pub open spec fn run(allocation: Seq<u64>, steps: Seq<RebalancingStep>) -> Seq<u64>
    decreases steps.len(),
{
    if steps.len() == 0 {
        allocation
    } else {
        run(apply_step(allocation, steps[0]), steps.drop_first())
    }
}

/// Whether every withdrawal among the steps stands before every deposit.
pub open spec fn withdrawals_first(steps: Seq<RebalancingStep>) -> bool {
    forall|i: int, j: int|
        0 <= i < j < steps.len() ==> !((#[trigger] steps[i]).operation == RebalancingOperation::Deposit && (
        #[trigger] steps[j]).operation == RebalancingOperation::Withdraw)
}

/// The withdrawals that bring the first `n` money markets down to their targets, by
/// rising index.
pub open spec fn withdraw_steps(allocation: Seq<u64>, target: Seq<u64>, n: int) -> Seq<RebalancingStep>
    decreases n,
{
    if n <= 0 {
        Seq::empty()
    } else if target[n - 1] < allocation[n - 1] {
        withdraw_steps(allocation, target, n - 1).push(
            RebalancingStep {
                money_market_index: (n - 1) as u8,
                operation: RebalancingOperation::Withdraw,
                amount: (allocation[n - 1] - target[n - 1]) as u64,
            },
        )
    } else {
        withdraw_steps(allocation, target, n - 1)
    }
}

/// The deposits that bring the first `n` money markets up to their targets, by rising
/// index.
pub open spec fn deposit_steps(allocation: Seq<u64>, target: Seq<u64>, n: int) -> Seq<RebalancingStep>
    decreases n,
{
    if n <= 0 {
        Seq::empty()
    } else if target[n - 1] > allocation[n - 1] {
        deposit_steps(allocation, target, n - 1).push(
            RebalancingStep {
                money_market_index: (n - 1) as u8,
                operation: RebalancingOperation::Deposit,
                amount: (target[n - 1] - allocation[n - 1]) as u64,
            },
        )
    } else {
        deposit_steps(allocation, target, n - 1)
    }
}

/// The plan that brings an allocation to its target: all withdrawals, then all
/// deposits, each group by rising index of the money market.
pub open spec fn planned_steps(allocation: Seq<u64>, target: Seq<u64>) -> Seq<RebalancingStep> {
    withdraw_steps(allocation, target, allocation.len() as int) + deposit_steps(
        allocation,
        target,
        allocation.len() as int,
    )
}

/// Taking one more step after steps that can be taken.
pub proof fn lemma_run_push(allocation: Seq<u64>, steps: Seq<RebalancingStep>, step: RebalancingStep)
    requires
        runnable(allocation, steps),
        step_applies(run(allocation, steps), step),
    ensures
        runnable(allocation, steps.push(step)),
        run(allocation, steps.push(step)) == apply_step(run(allocation, steps), step),
    decreases steps.len(),
{
    let more = steps.push(step);
    if steps.len() == 0 {
        assert(more.drop_first() =~= Seq::<RebalancingStep>::empty());
        assert(more[0] == step);
        assert(runnable(apply_step(allocation, step), more.drop_first()));
        assert(run(apply_step(allocation, step), more.drop_first()) == apply_step(allocation, step));
        assert(run(allocation, more) == run(apply_step(allocation, more[0]), more.drop_first()));
    } else {
        assert(more[0] == steps[0]);
        assert(more.drop_first() =~= steps.drop_first().push(step));
        lemma_run_push(apply_step(allocation, steps[0]), steps.drop_first(), step);
    }
}

/// Steps taken in two parts give what they give when taken in one: the steps up to
/// any position, and then the rest from the allocation that those left.
pub proof fn lemma_run_split(allocation: Seq<u64>, steps: Seq<RebalancingStep>, k: int)
    requires
        0 <= k <= steps.len(),
    ensures
        run(run(allocation, steps.take(k)), steps.skip(k)) == run(allocation, steps),
        runnable(allocation, steps) == (runnable(allocation, steps.take(k)) && runnable(
            run(allocation, steps.take(k)),
            steps.skip(k),
        )),
    decreases k,
{
    if k == 0 {
        assert(steps.take(0) =~= Seq::<RebalancingStep>::empty());
        assert(steps.skip(0) =~= steps);
    } else {
        let next = apply_step(allocation, steps[0]);
        assert(steps.take(k)[0] == steps[0]);
        assert(steps.take(k).drop_first() =~= steps.drop_first().take(k - 1));
        assert(steps.skip(k) =~= steps.drop_first().skip(k - 1));
        lemma_run_split(next, steps.drop_first(), k - 1);
    }
}

/// Running steps keeps the number of money markets.
pub proof fn lemma_run_len(allocation: Seq<u64>, steps: Seq<RebalancingStep>)
    requires
        runnable(allocation, steps),
    ensures
        run(allocation, steps).len() == allocation.len(),
    decreases steps.len(),
{
    if steps.len() > 0 {
        lemma_run_len(apply_step(allocation, steps[0]), steps.drop_first());
    }
}

/// Every step among the withdrawals withdraws, and every step among the deposits
/// deposits.
pub proof fn lemma_step_directions(allocation: Seq<u64>, target: Seq<u64>, n: int)
    ensures
        forall|i: int|
            0 <= i < withdraw_steps(allocation, target, n).len() ==> (#[trigger] withdraw_steps(
                allocation,
                target,
                n,
            )[i]).operation == RebalancingOperation::Withdraw,
        forall|i: int|
            0 <= i < deposit_steps(allocation, target, n).len() ==> (#[trigger] deposit_steps(
                allocation,
                target,
                n,
            )[i]).operation == RebalancingOperation::Deposit,
    decreases n,
{
    if n > 0 {
        lemma_step_directions(allocation, target, n - 1);
    }
}

/// In the plan for any allocation and target, every withdrawal stands before every
/// deposit.
pub proof fn lemma_withdrawals_precede_deposits(allocation: Seq<u64>, target: Seq<u64>)
    ensures
        withdrawals_first(planned_steps(allocation, target)),
{
    let n = allocation.len() as int;
    lemma_step_directions(allocation, target, n);
    let w = withdraw_steps(allocation, target, n);
    let d = deposit_steps(allocation, target, n);
    let plan = planned_steps(allocation, target);
    assert forall|i: int, j: int| 0 <= i < j < plan.len() implies !((#[trigger] plan[i]).operation
        == RebalancingOperation::Deposit && (#[trigger] plan[j]).operation
        == RebalancingOperation::Withdraw) by {
        if j < w.len() {
            assert(plan[j] == w[j]);
            assert(plan[i] == w[i]);
        } else {
            assert(plan[j] == d[j - w.len()]);
        }
    }
}

/// Plans the steps that bring an allocation to its target.
///
/// All withdrawals come before any deposit, so that what is withdrawn is at hand when
/// it is deposited again; within each group the money markets come by rising index.
/// Taken in order, the steps lead from the allocation to exactly the target.
pub fn plan_steps(allocation: &[u64; TOTAL_DISTRIBUTIONS], target: &[u64; TOTAL_DISTRIBUTIONS]) -> (steps: Vec<
    RebalancingStep,
>)
    ensures
        steps@ == planned_steps(allocation@, target@),
        withdrawals_first(steps@),
        runnable(allocation@, steps@),
        run(allocation@, steps@) == target@,
{
    let mut steps: Vec<RebalancingStep> = Vec::new();
    let mut i: usize = 0;
    while i < TOTAL_DISTRIBUTIONS
        invariant
            i <= TOTAL_DISTRIBUTIONS,
            steps@ == withdraw_steps(allocation@, target@, i as int),
            runnable(allocation@, steps@),
            run(allocation@, steps@).len() == TOTAL_DISTRIBUTIONS,
            forall|j: int|
                0 <= j < TOTAL_DISTRIBUTIONS ==> #[trigger] run(allocation@, steps@)[j] == if j < i
                    && target@[j] < allocation@[j] {
                    target@[j]
                } else {
                    allocation@[j]
                },
        decreases TOTAL_DISTRIBUTIONS - i,
    {
        if target[i] < allocation[i] {
            let step = RebalancingStep {
                money_market_index: i as u8,
                operation: RebalancingOperation::Withdraw,
                amount: allocation[i] - target[i],
            };
            proof {
                lemma_run_push(allocation@, steps@, step);
            }
            steps.push(step);
        }
        i += 1;
    }
    let ghost withdrawals = steps@;
    let mut i: usize = 0;
    while i < TOTAL_DISTRIBUTIONS
        invariant
            i <= TOTAL_DISTRIBUTIONS,
            withdrawals == withdraw_steps(allocation@, target@, TOTAL_DISTRIBUTIONS as int),
            steps@ == withdrawals + deposit_steps(allocation@, target@, i as int),
            runnable(allocation@, steps@),
            run(allocation@, steps@).len() == TOTAL_DISTRIBUTIONS,
            forall|j: int|
                0 <= j < TOTAL_DISTRIBUTIONS ==> #[trigger] run(allocation@, steps@)[j] == if target@[j]
                    < allocation@[j] || (j < i && target@[j] > allocation@[j]) {
                    target@[j]
                } else {
                    allocation@[j]
                },
        decreases TOTAL_DISTRIBUTIONS - i,
    {
        if target[i] > allocation[i] {
            let step = RebalancingStep {
                money_market_index: i as u8,
                operation: RebalancingOperation::Deposit,
                amount: target[i] - allocation[i],
            };
            proof {
                lemma_run_push(allocation@, steps@, step);
                assert(steps@.push(step) =~= withdrawals + deposit_steps(allocation@, target@, i + 1));
            }
            steps.push(step);
        }
        i += 1;
    }
    proof {
        assert(run(allocation@, steps@) =~= target@);
        lemma_withdrawals_precede_deposits(allocation@, target@);
    }
    steps
}

/// The share that an entry gives to the money market at `index` of the registry: its
/// own share where it names that market, else nothing.
pub open spec fn percent_at(registry: RegistryPrograms, index: int) -> spec_fn(LiquidityDistribution) -> int {
    |entry: LiquidityDistribution|
        if registry.is_index_of(index, entry.money_market) {
            entry.percent_bps as int
        } else {
            0
        }
}

/// The share of the money market at `index` of the registry: the sum of the shares of
/// the entries that name it.
pub open spec fn market_percent(registry: RegistryPrograms, entries: Seq<LiquidityDistribution>, index: int) -> int {
    sum_by(entries, percent_at(registry, index))
}

/// No amount is more than the sum of all.
pub proof fn lemma_amount_within_total(amounts: Seq<u64>, i: int)
    requires
        0 <= i < amounts.len(),
    ensures
        amounts[i] <= total_amount(amounts),
{
    lemma_sum_by_remove(amounts, i, value_of());
    lemma_sum_by_nonnegative(amounts.remove(i), value_of());
}

/// The share of every money market of the registry under a distribution.
///
/// Entries of money markets that the registry does not hold count for nothing. The
/// shares add up to no more than those of the distribution.
pub fn market_percents(registry: &RegistryPrograms, distribution: &TokenDistribution) -> (percents: [u64;
    TOTAL_DISTRIBUTIONS])
    requires
        distribution.wf(),
    ensures
        forall|i: int|
            0 <= i < TOTAL_DISTRIBUTIONS ==> #[trigger] percents@[i] == market_percent(
                *registry,
                distribution.distribution@,
                i,
            ),
        total_amount(percents@) <= total_percent(distribution.distribution@) <= FULL_PERCENT_BPS,
{
    let mut percents = [0u64; TOTAL_DISTRIBUTIONS];
    let ghost entries = distribution.distribution@;
    proof {
        assert(entries.take(0) =~= Seq::<LiquidityDistribution>::empty());
        lemma_total_of_zeros(percents@, TOTAL_DISTRIBUTIONS as int);
        assert(percents@.take(TOTAL_DISTRIBUTIONS as int) =~= percents@);
    }
    let mut j: usize = 0;
    while j < TOTAL_DISTRIBUTIONS
        invariant
            j <= TOTAL_DISTRIBUTIONS,
            entries == distribution.distribution@,
            total_percent(entries) <= FULL_PERCENT_BPS,
            forall|i: int|
                0 <= i < TOTAL_DISTRIBUTIONS ==> #[trigger] percents@[i] == market_percent(
                    *registry,
                    entries.take(j as int),
                    i,
                ),
            total_amount(percents@) <= total_percent(entries.take(j as int)),
        decreases TOTAL_DISTRIBUTIONS - j,
    {
        let entry = distribution.distribution[j];
        let found = registry.money_market_index(&entry.money_market);
        let ghost earlier = percents@;
        proof {
            lemma_sum_by_take_next(entries, j as int, percent_of());
            lemma_sum_by_prefix_le(entries, j + 1, percent_of());
            assert forall|i: int| 0 <= i < TOTAL_DISTRIBUTIONS implies market_percent(
                *registry,
                entries.take(j + 1),
                i,
            ) == market_percent(*registry, entries.take(j as int), i) + if found == Some(i as usize) {
                entry.percent_bps as int
            } else {
                0
            } by {
                lemma_sum_by_take_next(entries, j as int, percent_at(*registry, i));
                if registry.is_index_of(i, entry.money_market) {
                    assert(registry.money_market_program_ids@[i] == entry.money_market);
                    assert(registry.trusts(entry.money_market));
                }
            }
        }
        match found {
            Some(k) => {
                proof {
                    lemma_amount_within_total(percents@, k as int);
                    lemma_sum_by_update(
                        percents@,
                        k as int,
                        (percents@[k as int] + entry.percent_bps) as u64,
                        value_of(),
                    );
                }
                percents[k] = percents[k] + entry.percent_bps;
            },
            None => {},
        }
        j += 1;
    }
    proof {
        assert(entries.take(TOTAL_DISTRIBUTIONS as int) =~= entries);
    }
    percents
}

/// Amounts that are all nothing add up to nothing.
pub proof fn lemma_total_of_zeros(amounts: Seq<u64>, n: int)
    requires
        0 <= n <= amounts.len(),
        forall|i: int| 0 <= i < n ==> #[trigger] amounts[i] == 0,
    ensures
        total_amount(amounts.take(n)) == 0,
    decreases n,
{
    if n > 0 {
        lemma_total_of_zeros(amounts, n - 1);
        lemma_sum_by_take_next(amounts, n - 1, value_of());
    }
}

/// Targets that are shares of a total add up to no more than the total, where the
/// shares add up to no more than the whole.
pub proof fn lemma_targets_within_total(total_managed: u64, percents: Seq<u64>, targets: Seq<u64>)
    requires
        percents.len() == targets.len(),
        forall|i: int|
            0 <= i < targets.len() ==> #[trigger] targets[i] == target_amount(total_managed, percents[i]),
        total_amount(percents) <= FULL_PERCENT_BPS,
    ensures
        total_amount(targets) <= total_managed,
{
    lemma_scaled_targets(total_managed, percents, targets, targets.len() as int);
    assert(percents.take(percents.len() as int) =~= percents);
    assert(targets.take(targets.len() as int) =~= targets);
    let s = total_amount(targets);
    let p = total_amount(percents);
    let t = total_managed as int;
    assert(s <= t) by (nonlinear_arith)
        requires
            10_000 * s <= t * p,
            p <= 10_000,
            0 <= t,
    ;
}

/// Ten thousand times the first `n` targets is no more than the total times the
/// first `n` shares.
pub proof fn lemma_scaled_targets(total_managed: u64, percents: Seq<u64>, targets: Seq<u64>, n: int)
    requires
        percents.len() == targets.len(),
        0 <= n <= targets.len(),
        forall|i: int|
            0 <= i < targets.len() ==> #[trigger] targets[i] == target_amount(total_managed, percents[i]),
    ensures
        10_000 * total_amount(targets.take(n)) <= total_managed * total_amount(percents.take(n)),
    decreases n,
{
    if n == 0 {
        assert(targets.take(0) =~= Seq::<u64>::empty());
        assert(percents.take(0) =~= Seq::<u64>::empty());
    } else {
        lemma_scaled_targets(total_managed, percents, targets, n - 1);
        lemma_sum_by_take_next(targets, n - 1, value_of());
        lemma_sum_by_take_next(percents, n - 1, value_of());
        let x = total_managed * percents[n - 1];
        assert(0 <= x) by (nonlinear_arith)
            requires
                x == total_managed * percents[n - 1],
        ;
        vstd::arithmetic::div_mod::lemma_fundamental_div_mod(x, 10_000);
        vstd::arithmetic::div_mod::lemma_mod_bound(x, 10_000);
        let a = total_amount(targets.take(n - 1));
        let b = total_amount(percents.take(n - 1));
        let t = total_managed as int;
        let q = targets[n - 1] as int;
        let p = percents[n - 1] as int;
        assert(10_000 * (a + q) <= t * (b + p)) by (nonlinear_arith)
            requires
                10_000 * a <= t * b,
                10_000 * q <= t * p,
        ;
    }
}

/// The target of every money market: its share of the managed liquidity, rounded
/// down.
pub fn compute_targets(total_managed: u64, percents: &[u64; TOTAL_DISTRIBUTIONS]) -> (targets: [u64;
    TOTAL_DISTRIBUTIONS])
    requires
        forall|i: int| 0 <= i < TOTAL_DISTRIBUTIONS ==> #[trigger] percents@[i] <= FULL_PERCENT_BPS,
    ensures
        forall|i: int|
            0 <= i < TOTAL_DISTRIBUTIONS ==> #[trigger] targets@[i] == target_amount(
                total_managed,
                percents@[i],
            ),
{
    let mut targets = [0u64; TOTAL_DISTRIBUTIONS];
    let mut i: usize = 0;
    while i < TOTAL_DISTRIBUTIONS
        invariant
            i <= TOTAL_DISTRIBUTIONS,
            forall|j: int| 0 <= j < TOTAL_DISTRIBUTIONS ==> #[trigger] percents@[j] <= FULL_PERCENT_BPS,
            forall|j: int| 0 <= j < i ==> #[trigger] targets@[j] == target_amount(total_managed, percents@[j]),
        decreases TOTAL_DISTRIBUTIONS - i,
    {
        proof {
            let t = total_managed as int;
            let p = percents@[i as int] as int;
            assert(0 <= t * p <= t * 10_000) by (nonlinear_arith)
                requires
                    0 <= t,
                    0 <= p <= 10_000,
            ;
            vstd::arithmetic::div_mod::lemma_div_is_ordered(t * p, t * 10_000, 10_000);
            vstd::arithmetic::div_mod::lemma_div_multiples_vanish(t, 10_000);
            assert(t * 10_000 == 10_000 * t) by (nonlinear_arith);
            lemma_div_bounds(t * p, 10_000);
        }
        assert(total_managed * percents@[i as int] <= 0xffff_ffff_ffff_ffff * 10_000) by (nonlinear_arith)
            requires
                total_managed <= 0xffff_ffff_ffff_ffff,
                percents@[i as int] <= 10_000,
        ;
        let scaled: u128 = (total_managed as u128) * (percents[i] as u128);
        targets[i] = (scaled / (FULL_PERCENT_BPS as u128)) as u64;
        i += 1;
    }
    targets
}

} // verus!
