use everlend_core::depositor::mm::check_deposit;
use everlend_core::error::EverlendError;
use everlend_core::instruction::TransactionInstructions;
use everlend_core::money_market::{encode_amount, registry_programs, ExchangeRate, MoneyMarket, ReserveState};
use everlend_core::pubkey::Pubkey;
use everlend_core::registry::RegistryPrograms;
use everlend_core::rewards::{process_instruction, RewardsHandler, RewardsInstruction};

fn key(n: u8) -> Pubkey {
    Pubkey::new_from_array([n; 32])
}

fn registry() -> RegistryPrograms {
    registry_programs(key(10), key(11), key(12))
}

#[test]
fn registry_holds_each_market_at_its_index() {
    let registry = registry();
    assert_eq!(registry.money_market_program_ids[0], key(10));
    assert_eq!(registry.money_market_program_ids[1], key(11));
    assert_eq!(registry.money_market_program_ids[2], key(12));
    for slot in 3..10 {
        assert_eq!(registry.money_market_program_ids[slot], Pubkey::default());
    }
    assert_eq!(registry.money_market_index(&key(11)), Some(MoneyMarket::Larix.index()));
}

#[test]
fn money_markets_have_their_index() {
    assert_eq!(MoneyMarket::PortFinance.index(), 0);
    assert_eq!(MoneyMarket::Larix.index(), 1);
    assert_eq!(MoneyMarket::Solend.index(), 2);
    assert_eq!(MoneyMarket::from_index(0), Some(MoneyMarket::PortFinance));
    assert_eq!(MoneyMarket::from_index(1), Some(MoneyMarket::Larix));
    assert_eq!(MoneyMarket::from_index(2), Some(MoneyMarket::Solend));
    assert_eq!(MoneyMarket::from_index(3), None);
    assert_eq!(MoneyMarket::Solend.program_id(&registry()), key(12));
}

#[test]
fn amount_is_encoded_most_significant_first() {
    assert_eq!(encode_amount(0), vec![0; 8]);
    assert_eq!(encode_amount(258), vec![0, 0, 0, 0, 0, 0, 1, 2]);
    assert_eq!(encode_amount(u64::MAX), vec![255; 8]);
    assert_eq!(encode_amount(0x0102_0304_0506_0708), vec![1, 2, 3, 4, 5, 6, 7, 8]);
    assert_eq!(encode_amount(1 << 56), vec![1, 0, 0, 0, 0, 0, 0, 0]);
}

#[test]
fn built_deposit_verifies() {
    let registry = registry();
    let instruction = MoneyMarket::Larix.build_deposit(&registry, &key(1), 400);
    assert_eq!(instruction.program_id, key(11));
    assert_eq!(instruction.accounts, vec![key(1)]);
    assert_eq!(instruction.data, 400u64.to_be_bytes().to_vec());
    let transaction = TransactionInstructions { current_index: 0, money_market_instruction: instruction };
    assert_eq!(check_deposit(&transaction, &key(11), 400), Ok(()));
    assert_eq!(check_deposit(&transaction, &key(11), 401), Err(EverlendError::WrongInstructionAmount));
    assert_eq!(check_deposit(&transaction, &key(10), 400), Err(EverlendError::IncorrectInstructionProgramId));
}

#[test]
fn built_withdrawal_verifies() {
    let registry = registry();
    let instruction = MoneyMarket::PortFinance.build_withdraw(&registry, &key(1), 7);
    assert_eq!(instruction.program_id, key(10));
    let transaction = TransactionInstructions { current_index: 0, money_market_instruction: instruction };
    assert_eq!(check_deposit(&transaction, &key(10), 7), Ok(()));
}

#[test]
fn exchange_rate_converts_both_ways() {
    let reserve = ReserveState { total_liquidity: 1_500, collateral_supply: 1_000 };
    let rate = MoneyMarket::Solend.get_exchange_rate(&reserve);
    assert_eq!(rate, ExchangeRate { liquidity: 1_500, collateral: 1_000 });
    assert_eq!(rate.liquidity_to_collateral(300), Some(200));
    assert_eq!(rate.collateral_to_liquidity(200), Some(300));
    // Rounded down.
    assert_eq!(rate.liquidity_to_collateral(100), Some(66));
    assert_eq!(rate.collateral_to_liquidity(1), Some(1));
    // An empty reserve trades one to one.
    let empty = MoneyMarket::Larix.get_exchange_rate(&ReserveState { total_liquidity: 0, collateral_supply: 0 });
    assert_eq!(empty.liquidity_to_collateral(77), Some(77));
    assert_eq!(empty.collateral_to_liquidity(77), Some(77));
    // What does not fit is not made up.
    let steep = ExchangeRate { liquidity: 1, collateral: u64::MAX };
    assert_eq!(steep.liquidity_to_collateral(2), None);
    assert_eq!(steep.liquidity_to_collateral(1), Some(u64::MAX));
}

#[test]
fn every_instruction_starts_its_handler() {
    assert_eq!(
        process_instruction(&RewardsInstruction::InitializePool { lock_time_sec: 9 }),
        Ok(RewardsHandler::InitializePool { lock_time_sec: 9 })
    );
    assert_eq!(
        process_instruction(&RewardsInstruction::AddVault {
            ratio_base: 1,
            ratio_quote: 2,
            reward_period_sec: 3,
            distribution_starts_at: 4,
            reward_max_amount_per_period: 5,
        }),
        Ok(RewardsHandler::AddVault {
            ratio_base: 1,
            ratio_quote: 2,
            reward_period_sec: 3,
            distribution_starts_at: 4,
            reward_max_amount_per_period: 5,
        })
    );
    assert_eq!(
        process_instruction(&RewardsInstruction::FillVault { amount: 11 }),
        Ok(RewardsHandler::FillVault { amount: 11 })
    );
    assert_eq!(
        process_instruction(&RewardsInstruction::DepositMining { amount: 12 }),
        Ok(RewardsHandler::DepositMining { amount: 12 })
    );
    assert_eq!(process_instruction(&RewardsInstruction::WithdrawMining), Ok(RewardsHandler::WithdrawMining));
    assert_eq!(process_instruction(&RewardsInstruction::Claim), Ok(RewardsHandler::Claim));
    assert_eq!(process_instruction(&RewardsInstruction::InitializeRoot), Ok(RewardsHandler::InitializeRoot));
}

#[test]
fn pool_migration_is_not_implemented() {
    assert_eq!(process_instruction(&RewardsInstruction::MigratePool), Err(EverlendError::NotImplemented));
}
