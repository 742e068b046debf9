use everlend_core::depositor::mm::{check_amount_from_deposit_instruction, check_deposit};
use everlend_core::depositor::{
    find_labelled_transit_program_address, find_program_address, find_transit_program_address,
};
use everlend_core::error::EverlendError;
use everlend_core::instruction::{Instruction, TransactionInstructions};
use everlend_core::pubkey::Pubkey;

fn key(n: u8) -> Pubkey {
    Pubkey::new_from_array([n; 32])
}

fn outside(key: &Pubkey) -> solana_program::pubkey::Pubkey {
    solana_program::pubkey::Pubkey::new_from_array(key.to_bytes())
}

fn transaction(current_index: u16, program_id: Pubkey, data: Vec<u8>) -> TransactionInstructions {
    TransactionInstructions {
        current_index,
        money_market_instruction: Instruction { program_id, accounts: vec![], data },
    }
}

#[test]
fn amount_of_eight_bytes_is_read_most_significant_first() {
    assert_eq!(check_amount_from_deposit_instruction(vec![0, 0, 0, 0, 0, 0, 1, 2], 258), Ok(()));
    assert_eq!(
        check_amount_from_deposit_instruction(vec![2, 1, 0, 0, 0, 0, 0, 0], 258),
        Err(EverlendError::WrongInstructionAmount)
    );
    assert_eq!(
        check_amount_from_deposit_instruction(u64::MAX.to_be_bytes().to_vec(), u64::MAX),
        Ok(())
    );
    assert_eq!(
        check_amount_from_deposit_instruction(0x0102_0304_0506_0708u64.to_be_bytes().to_vec(), 0x0102_0304_0506_0708),
        Ok(())
    );
}

#[test]
fn amount_that_differs_is_refused() {
    assert_eq!(
        check_amount_from_deposit_instruction(100u64.to_be_bytes().to_vec(), 101),
        Err(EverlendError::WrongInstructionAmount)
    );
}

#[test]
fn payload_of_another_length_encodes_no_amount() {
    assert_eq!(
        check_amount_from_deposit_instruction(vec![], 0),
        Err(EverlendError::WrongInstructionAmount)
    );
    assert_eq!(
        check_amount_from_deposit_instruction(vec![0, 0, 0, 0, 0, 0, 0], 0),
        Err(EverlendError::WrongInstructionAmount)
    );
    assert_eq!(
        check_amount_from_deposit_instruction(vec![0, 0, 0, 0, 0, 0, 0, 0, 5], 5),
        Err(EverlendError::WrongInstructionAmount)
    );
}

#[test]
fn deposit_verifies_for_trusted_program_and_exact_amount() {
    let trusted = key(7);
    let tx = transaction(0, trusted, 600u64.to_be_bytes().to_vec());
    assert_eq!(check_deposit(&tx, &trusted, 600), Ok(()));
}

#[test]
fn verifying_instruction_must_be_first() {
    let trusted = key(7);
    let tx = transaction(1, trusted, 600u64.to_be_bytes().to_vec());
    assert_eq!(check_deposit(&tx, &trusted, 600), Err(EverlendError::InvalidInstructionOrder));
    // The order is tested before anything else.
    let tx = transaction(3, key(8), vec![1]);
    assert_eq!(check_deposit(&tx, &trusted, 600), Err(EverlendError::InvalidInstructionOrder));
}

#[test]
fn untrusted_program_is_refused() {
    let trusted = key(7);
    let tx = transaction(0, key(8), 600u64.to_be_bytes().to_vec());
    assert_eq!(check_deposit(&tx, &trusted, 600), Err(EverlendError::IncorrectInstructionProgramId));
    // The program is tested before the amount.
    let tx = transaction(0, key(8), 1u64.to_be_bytes().to_vec());
    assert_eq!(check_deposit(&tx, &trusted, 600), Err(EverlendError::IncorrectInstructionProgramId));
}

#[test]
fn wrong_amount_is_refused() {
    let trusted = key(7);
    let tx = transaction(0, trusted, 599u64.to_be_bytes().to_vec());
    assert_eq!(check_deposit(&tx, &trusted, 600), Err(EverlendError::WrongInstructionAmount));
}

#[test]
fn authority_is_derived_from_the_address_alone() {
    let program = key(1);
    let depositor = key(2);
    let expected =
        solana_program::pubkey::Pubkey::find_program_address(&[&depositor.to_bytes()[..32]], &outside(&program));
    let (address, bump) = find_program_address(&program, &depositor).unwrap();
    assert_eq!(outside(&address), expected.0);
    assert_eq!(bump, expected.1);
    assert_ne!(address, depositor);
    assert_ne!(address, program);
}

#[test]
fn transit_is_derived_from_depositor_and_mint() {
    let program = key(1);
    let depositor = key(2);
    let mint = key(3);
    let expected = solana_program::pubkey::Pubkey::find_program_address(
        &[&depositor.to_bytes(), &mint.to_bytes()],
        &outside(&program),
    );
    let (address, bump) = find_transit_program_address(&program, &depositor, &mint).unwrap();
    assert_eq!(outside(&address), expected.0);
    assert_eq!(bump, expected.1);
    // Another mint has another transit account.
    let other = find_transit_program_address(&program, &depositor, &key(4)).unwrap();
    assert_ne!(other.0, address);
    // The order of the seeds matters.
    let swapped = find_transit_program_address(&program, &mint, &depositor).unwrap();
    assert_ne!(swapped.0, address);
}

#[test]
fn labelled_transit_has_its_own_address() {
    let program = key(1);
    let depositor = key(2);
    let mint = key(3);
    let expected = solana_program::pubkey::Pubkey::find_program_address(
        &["reserve".as_bytes(), &depositor.to_bytes(), &mint.to_bytes()],
        &outside(&program),
    );
    let (address, bump) =
        find_labelled_transit_program_address(&program, &depositor, &mint, "reserve").unwrap();
    assert_eq!(outside(&address), expected.0);
    assert_eq!(bump, expected.1);
    let plain = find_transit_program_address(&program, &depositor, &mint).unwrap();
    assert_ne!(plain.0, address);
}

#[test]
fn label_longer_than_a_seed_finds_nothing() {
    let label = "a-label-that-is-longer-than-thirty-two-bytes";
    assert!(label.len() > 32);
    assert_eq!(find_labelled_transit_program_address(&key(1), &key(2), &key(3), label), None);
    let label = "exactly-thirty-two-bytes-long-ok";
    assert_eq!(label.len(), 32);
    assert!(find_labelled_transit_program_address(&key(1), &key(2), &key(3), label).is_some());
}
