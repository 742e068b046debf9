use everlend_core::depositor::rebalancing::{
    compute_targets, market_percents, plan_steps, RebalancingOperation, RebalancingStep,
};
use everlend_core::depositor::state::{Rebalancing, RebalancingStatus};
use everlend_core::error::EverlendError;
use everlend_core::general_pool::withdrawal::WithdrawalRequests;
use everlend_core::general_pool::{Pool, PoolBorrowAuthority};
use everlend_core::instruction::{Instruction, TransactionInstructions};
use everlend_core::liquidity_oracle::{LiquidityDistribution, LiquidityOracle, TokenDistribution};
use everlend_core::money_market::MoneyMarket;
use everlend_core::pubkey::Pubkey;
use everlend_core::registry::{RegistryPrograms, TOTAL_DISTRIBUTIONS};

const MINT: u8 = 4;
const AUTHORITY: u8 = 2;
const MARKET_A: u8 = 10;
const MARKET_B: u8 = 11;
const MARKET_C: u8 = 12;

fn key(n: u8) -> Pubkey {
    Pubkey::new_from_array([n; 32])
}

fn registry() -> RegistryPrograms {
    let mut registry = RegistryPrograms::new();
    registry.money_market_program_ids[0] = key(MARKET_A);
    registry.money_market_program_ids[1] = key(MARKET_B);
    registry.money_market_program_ids[2] = key(MARKET_C);
    registry
}

fn distribution(shares: &[(u8, u64)], slot: u64) -> TokenDistribution {
    let mut entries =
        [LiquidityDistribution { money_market: Pubkey::default(), percent_bps: 0 }; TOTAL_DISTRIBUTIONS];
    for (i, (market, percent_bps)) in shares.iter().enumerate() {
        entries[i] = LiquidityDistribution { money_market: key(*market), percent_bps: *percent_bps };
    }
    let mut record = TokenDistribution::uninitialized();
    record
        .create_token_distribution(
            &LiquidityOracle::new(key(AUTHORITY)),
            &key(AUTHORITY),
            &registry(),
            key(MINT),
            &entries,
            slot,
        )
        .unwrap();
    record
}

fn pool_with(liquidity: u64) -> Pool {
    let mut pool = Pool::new(key(1), key(MINT), key(5), key(6));
    pool.deposit(0, liquidity).unwrap();
    pool
}

fn withdraw(money_market_index: u8, amount: u64) -> RebalancingStep {
    RebalancingStep { money_market_index, operation: RebalancingOperation::Withdraw, amount }
}

fn deposit(money_market_index: u8, amount: u64) -> RebalancingStep {
    RebalancingStep { money_market_index, operation: RebalancingOperation::Deposit, amount }
}

/// The transaction that shows the given step.
fn evidence(step: &RebalancingStep) -> TransactionInstructions {
    let market = MoneyMarket::from_index(step.money_market_index as usize).unwrap();
    let instruction = match step.operation {
        RebalancingOperation::Deposit => market.build_deposit(&registry(), &key(MINT), step.amount),
        RebalancingOperation::Withdraw => market.build_withdraw(&registry(), &key(MINT), step.amount),
    };
    TransactionInstructions { current_index: 0, money_market_instruction: instruction }
}

fn allocation(values: &[u64]) -> [u64; TOTAL_DISTRIBUTIONS] {
    let mut allocation = [0u64; TOTAL_DISTRIBUTIONS];
    allocation[..values.len()].copy_from_slice(values);
    allocation
}

#[test]
fn plan_from_nothing_deposits_the_shares() {
    let mut record = Rebalancing::new(key(3), key(MINT));
    let status = record.start(&registry(), &distribution(&[(MARKET_A, 6000), (MARKET_B, 4000)], 10), 1000);
    assert_eq!(status, Ok(RebalancingStatus::Planned));
    assert_eq!(record.steps, vec![deposit(0, 600), deposit(1, 400)]);
    assert_eq!(record.target, allocation(&[600, 400]));
    assert_eq!(record.allocation, allocation(&[]));
    assert_eq!(record.cursor, 0);
    assert_eq!(record.distribution_updated_at, 10);
    assert!(record.is_wf());
}

#[test]
fn targets_are_shares_of_the_total_rounded_down() {
    let targets = compute_targets(1000, &allocation(&[6000, 4000]));
    assert_eq!(targets, allocation(&[600, 400]));
    let targets = compute_targets(999, &allocation(&[3333, 3333, 3334]));
    assert_eq!(targets, allocation(&[332, 332, 333]));
    let targets = compute_targets(u64::MAX, &allocation(&[10_000]));
    assert_eq!(targets, allocation(&[u64::MAX]));
    let targets = compute_targets(7, &allocation(&[1, 9_999]));
    assert_eq!(targets, allocation(&[0, 6]));
}

#[test]
fn shares_are_taken_by_the_registry_index() {
    // The entries stand in another order than the registry, one market twice, and
    // one entry names a market that the registry has lost.
    let mut record = distribution(&[(MARKET_C, 1000), (MARKET_A, 2000), (MARKET_C, 500)], 1);
    record.distribution[3] = LiquidityDistribution { money_market: key(99), percent_bps: 3000 };
    assert_eq!(market_percents(&registry(), &record), allocation(&[2000, 0, 1500]));
}

#[test]
fn withdrawals_come_before_deposits() {
    let steps = plan_steps(&allocation(&[100, 500, 0, 300]), &allocation(&[400, 200, 250, 50]));
    assert_eq!(steps, vec![withdraw(1, 300), withdraw(3, 250), deposit(0, 300), deposit(2, 250)]);
    // A market at its target gets no step.
    let steps = plan_steps(&allocation(&[10, 20, 30]), &allocation(&[10, 25, 30]));
    assert_eq!(steps, vec![deposit(1, 5)]);
    assert!(plan_steps(&allocation(&[1, 2]), &allocation(&[1, 2])).is_empty());
}

#[test]
fn rebalancing_runs_to_the_new_targets() {
    let registry = registry();
    let mut pool = pool_with(1000);
    let mut authority = PoolBorrowAuthority::new(key(7), key(3), 10_000);
    let mut record = Rebalancing::new(key(3), key(MINT));
    record.start(&registry, &distribution(&[(MARKET_A, 6000), (MARKET_B, 4000)], 10), pool.total_liquidity_supply).unwrap();
    while let Some(step) = record.next_step() {
        assert_eq!(record.execute_step(&mut pool, &mut authority, &registry, &evidence(&step)), Ok(step));
    }
    assert_eq!(record.allocation, allocation(&[600, 400]));
    assert_eq!(pool.total_liquidity_supply, 0);
    assert_eq!(authority.amount_borrowed, 1000);

    // The shares change: market A gives, markets B and C take.
    let newer = distribution(&[(MARKET_A, 2000), (MARKET_B, 5000), (MARKET_C, 2000)], 20);
    assert_eq!(record.start(&registry, &newer, pool.total_liquidity_supply), Ok(RebalancingStatus::Planned));
    assert_eq!(record.steps, vec![withdraw(0, 400), deposit(1, 100), deposit(2, 200)]);
    while let Some(step) = record.next_step() {
        record.execute_step(&mut pool, &mut authority, &registry, &evidence(&step)).unwrap();
    }
    assert_eq!(record.allocation, allocation(&[200, 500, 200]));
    assert_eq!(record.allocation, record.target);
    // A tenth of the liquidity stays in the pool.
    assert_eq!(pool.total_liquidity_supply, 100);
    assert_eq!(authority.amount_borrowed, 900);
    assert!(record.is_wf());
    assert_eq!(
        record.execute_step(&mut pool, &mut authority, &registry, &evidence(&deposit(0, 1))),
        Err(EverlendError::InvalidRebalancingOperation)
    );
}

#[test]
fn resuming_gives_what_one_pass_gives() {
    let registry = registry();
    let first = distribution(&[(MARKET_A, 5000), (MARKET_B, 5000)], 10);
    let second = distribution(&[(MARKET_A, 1000), (MARKET_B, 3000), (MARKET_C, 6000)], 20);

    // One pass.
    let mut pool = pool_with(1000);
    let mut authority = PoolBorrowAuthority::new(key(7), key(3), 10_000);
    let mut record = Rebalancing::new(key(3), key(MINT));
    record.start(&registry, &first, pool.total_liquidity_supply).unwrap();
    while let Some(step) = record.next_step() {
        record.execute_step(&mut pool, &mut authority, &registry, &evidence(&step)).unwrap();
    }
    record.start(&registry, &second, pool.total_liquidity_supply).unwrap();
    let planned = record.steps.clone();
    assert_eq!(planned, vec![withdraw(0, 400), withdraw(1, 200), deposit(2, 600)]);
    while let Some(step) = record.next_step() {
        record.execute_step(&mut pool, &mut authority, &registry, &evidence(&step)).unwrap();
    }
    let one_pass = (record.allocation, pool.total_liquidity_supply, authority.amount_borrowed);

    // The same in three calls, each of which starts again and takes one step.
    let mut pool = pool_with(1000);
    let mut authority = PoolBorrowAuthority::new(key(7), key(3), 10_000);
    let mut record = Rebalancing::new(key(3), key(MINT));
    record.start(&registry, &first, pool.total_liquidity_supply).unwrap();
    while let Some(step) = record.next_step() {
        record.execute_step(&mut pool, &mut authority, &registry, &evidence(&step)).unwrap();
    }
    assert_eq!(record.start(&registry, &second, pool.total_liquidity_supply), Ok(RebalancingStatus::Planned));
    for done in 0..3usize {
        if done > 0 {
            assert_eq!(
                record.start(&registry, &second, pool.total_liquidity_supply),
                Ok(RebalancingStatus::Resumed)
            );
        }
        assert_eq!(record.cursor, done);
        assert_eq!(record.steps, planned);
        let step = record.next_step().unwrap();
        record.execute_step(&mut pool, &mut authority, &registry, &evidence(&step)).unwrap();
        assert!(record.is_wf());
    }
    assert_eq!((record.allocation, pool.total_liquidity_supply, authority.amount_borrowed), one_pass);
    assert_eq!(record.allocation, allocation(&[100, 300, 600]));
}

#[test]
fn newer_distribution_supersedes_the_plan_in_flight() {
    let registry = registry();
    let mut pool = pool_with(1000);
    let mut authority = PoolBorrowAuthority::new(key(7), key(3), 10_000);
    let mut record = Rebalancing::new(key(3), key(MINT));
    record.start(&registry, &distribution(&[(MARKET_A, 6000), (MARKET_B, 4000)], 10), pool.total_liquidity_supply).unwrap();
    let step = record.next_step().unwrap();
    record.execute_step(&mut pool, &mut authority, &registry, &evidence(&step)).unwrap();
    assert_eq!(record.allocation, allocation(&[600]));

    // An older distribution does not replace the plan in flight.
    let older = distribution(&[(MARKET_A, 10_000)], 9);
    assert_eq!(record.start(&registry, &older, pool.total_liquidity_supply), Ok(RebalancingStatus::Resumed));
    assert_eq!(record.steps, vec![deposit(0, 600), deposit(1, 400)]);
    assert_eq!(record.cursor, 1);

    // A newer one does, and the plan starts from what the markets hold now.
    let newer = distribution(&[(MARKET_A, 1000), (MARKET_C, 9000)], 11);
    assert_eq!(record.start(&registry, &newer, pool.total_liquidity_supply), Ok(RebalancingStatus::Planned));
    assert_eq!(record.steps, vec![withdraw(0, 500), deposit(2, 900)]);
    assert_eq!(record.cursor, 0);
    assert_eq!(record.distribution_updated_at, 11);
    assert_eq!(record.target, allocation(&[100, 0, 900]));
    assert!(record.is_wf());
}

#[test]
fn untrusted_program_aborts_the_step() {
    let registry = registry();
    let mut pool = pool_with(1000);
    let mut authority = PoolBorrowAuthority::new(key(7), key(3), 10_000);
    let mut record = Rebalancing::new(key(3), key(MINT));
    record.start(&registry, &distribution(&[(MARKET_A, 6000), (MARKET_B, 4000)], 10), 1000).unwrap();

    let forged = TransactionInstructions {
        current_index: 0,
        money_market_instruction: Instruction {
            program_id: key(66),
            accounts: vec![key(MINT)],
            data: 600u64.to_be_bytes().to_vec(),
        },
    };
    assert_eq!(
        record.execute_step(&mut pool, &mut authority, &registry, &forged),
        Err(EverlendError::IncorrectInstructionProgramId)
    );
    // Nothing moved and no step counts as done.
    assert_eq!(record.cursor, 0);
    assert_eq!(record.allocation, allocation(&[]));
    assert_eq!(pool.total_liquidity_supply, 1000);
    assert_eq!(authority.amount_borrowed, 0);
}

#[test]
fn step_needs_the_first_place_and_the_exact_amount() {
    let registry = registry();
    let mut pool = pool_with(1000);
    let mut authority = PoolBorrowAuthority::new(key(7), key(3), 10_000);
    let mut record = Rebalancing::new(key(3), key(MINT));
    record.start(&registry, &distribution(&[(MARKET_A, 6000), (MARKET_B, 4000)], 10), 1000).unwrap();

    let mut late = evidence(&deposit(0, 600));
    late.current_index = 1;
    assert_eq!(
        record.execute_step(&mut pool, &mut authority, &registry, &late),
        Err(EverlendError::InvalidInstructionOrder)
    );
    assert_eq!(
        record.execute_step(&mut pool, &mut authority, &registry, &evidence(&deposit(0, 599))),
        Err(EverlendError::WrongInstructionAmount)
    );
    // The instruction of the second step does not pass for the first.
    assert_eq!(
        record.execute_step(&mut pool, &mut authority, &registry, &evidence(&deposit(1, 400))),
        Err(EverlendError::IncorrectInstructionProgramId)
    );
    assert_eq!(record.cursor, 0);
    assert_eq!(pool.total_liquidity_supply, 1000);
}

#[test]
fn deposit_waits_for_liquidity() {
    let registry = registry();
    let mut pool = pool_with(1000);
    let mut authority = PoolBorrowAuthority::new(key(7), key(3), 10_000);
    let mut record = Rebalancing::new(key(3), key(MINT));
    record.start(&registry, &distribution(&[(MARKET_A, 6000), (MARKET_B, 4000)], 10), 1000).unwrap();
    // Someone else draws from the pool in between.
    let mut other = PoolBorrowAuthority::new(key(7), key(8), 10_000);
    pool.reserve_liquidity(&mut other, 500).unwrap();
    assert_eq!(
        record.execute_step(&mut pool, &mut authority, &registry, &evidence(&deposit(0, 600))),
        Err(EverlendError::InsufficientFunds)
    );
    assert_eq!(record.cursor, 0);
    pool.return_liquidity(&mut other, 500).unwrap();
    assert_eq!(
        record.execute_step(&mut pool, &mut authority, &registry, &evidence(&deposit(0, 600))),
        Ok(deposit(0, 600))
    );
    assert_eq!(record.cursor, 1);

    // An authority with a small share cannot fund the step.
    let mut small = PoolBorrowAuthority::new(key(7), key(3), 1_000);
    assert_eq!(
        record.execute_step(&mut pool, &mut small, &registry, &evidence(&deposit(1, 400))),
        Err(EverlendError::AmountAllowedCheckFailed)
    );
    assert_eq!(record.cursor, 1);
}

#[test]
fn start_checks_the_distribution() {
    let registry = registry();
    let mut record = Rebalancing::new(key(3), key(MINT));
    assert_eq!(
        record.start(&registry, &TokenDistribution::uninitialized(), 1000),
        Err(EverlendError::InvalidAccountData)
    );
    let mut other = distribution(&[(MARKET_A, 6000)], 10);
    other.token_mint = key(77);
    assert_eq!(record.start(&registry, &other, 1000), Err(EverlendError::InvalidArgument));
    assert!(record.steps.is_empty());

    // What is under management must fit in 64 bits.
    record.allocation[0] = u64::MAX;
    record.target[0] = u64::MAX;
    assert!(record.is_wf());
    assert_eq!(
        record.start(&registry, &distribution(&[(MARKET_A, 6000)], 10), 1),
        Err(EverlendError::MathOverflow)
    );
    assert_eq!(record.start(&registry, &distribution(&[(MARKET_A, 10_000)], 10), 0), Ok(RebalancingStatus::Planned));
    assert!(record.steps.is_empty());
}

#[test]
fn migration_is_not_implemented() {
    let record = Rebalancing::new(key(3), key(MINT));
    assert_eq!(record.migrate(), Err(EverlendError::NotImplemented));
}

#[test]
fn record_that_breaks_its_rules_is_not_well_formed() {
    let mut record = Rebalancing::new(key(3), key(MINT));
    record.start(&registry(), &distribution(&[(MARKET_A, 6000), (MARKET_B, 4000)], 10), 1000).unwrap();
    assert!(record.is_wf());
    record.cursor = 3;
    assert!(!record.is_wf());
    record.cursor = 0;
    record.target[1] = 401;
    assert!(!record.is_wf());
    record.target[1] = 400;
    record.steps.insert(1, withdraw(0, 600));
    record.steps.insert(2, deposit(0, 600));
    // Deposit, withdrawal, deposit: the amounts work out, the order does not.
    assert!(!record.is_wf());
    record.steps = vec![withdraw(0, 1)];
    assert!(!record.is_wf());
    record.steps = vec![deposit(10, 1)];
    assert!(!record.is_wf());
}

#[test]
fn withdrawals_are_paid_after_the_steps() {
    let registry = registry();
    let mut pool = pool_with(1000);
    let mut authority = PoolBorrowAuthority::new(key(7), key(3), 10_000);
    let mut record = Rebalancing::new(key(3), key(MINT));
    record.start(&registry, &distribution(&[(MARKET_A, 10_000)], 10), 1000).unwrap();
    let mut queue = WithdrawalRequests::new(key(7), key(MINT));
    let asked = queue.withdraw_request(&pool, 1000, key(20), key(21), key(22), 300).unwrap();
    assert_eq!(asked.liquidity_amount, 300);
    // Nothing is paid while steps are left.
    assert_eq!(
        record.settle_withdrawals(&mut queue, &mut pool).unwrap_err(),
        EverlendError::InvalidRebalancingOperation
    );
    assert_eq!(queue.requests, vec![asked]);
    assert_eq!(pool.total_liquidity_supply, 1000);
    while let Some(step) = record.next_step() {
        record.execute_step(&mut pool, &mut authority, &registry, &evidence(&step)).unwrap();
    }
    assert_eq!(pool.total_liquidity_supply, 0);
    let processed = queue.process_withdrawals(&mut pool, 1);
    assert_eq!(processed.result, Err(EverlendError::InsufficientFunds));
    assert!(processed.fulfilled.is_empty());

    // The next distribution frees liquidity; then the request is paid.
    record.start(&registry, &distribution(&[(MARKET_A, 5_000)], 11), pool.total_liquidity_supply).unwrap();
    assert_eq!(record.steps, vec![withdraw(0, 500)]);
    while let Some(step) = record.next_step() {
        record.execute_step(&mut pool, &mut authority, &registry, &evidence(&step)).unwrap();
    }
    let processed = record.settle_withdrawals(&mut queue, &mut pool).unwrap();
    assert_eq!(processed.result, Ok(()));
    assert_eq!(processed.fulfilled, vec![asked]);
    assert_eq!(pool.total_liquidity_supply, 200);
    assert_eq!(queue.liquidity_supply, 0);
}
