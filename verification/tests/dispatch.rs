use pinocchio::{AccountView, Address};
use zero_copy_read::accounts::DepositAccounts;
use zero_copy_read::deposit::Deposit;
use zero_copy_read::error::AccessError;
use zero_copy_read::processor::process;

fn deposit_buffer(tag: u8, amount: u64, multiplier: u64) -> Vec<u8> {
    let mut data = vec![tag];
    data.extend_from_slice(&amount.to_le_bytes());
    data.extend_from_slice(&multiplier.to_le_bytes());
    data
}

#[test]
fn unknown_tag_names_no_operation() {
    let program = Address::from([0u8; 32]);
    let accounts: Vec<AccountView> = Vec::new();
    for tag in [1u8, 2, 127, 255] {
        let data = deposit_buffer(tag, 5, 2);
        assert_eq!(process(&program, &accounts, &data).err(), Some(AccessError::UnknownOperation));
    }
}

#[test]
fn empty_buffer_names_no_operation() {
    let program = Address::from([0u8; 32]);
    let accounts: Vec<AccountView> = Vec::new();
    assert_eq!(process(&program, &accounts, &[]).err(), Some(AccessError::UnknownOperation));
}

#[test]
fn deposit_tag_is_zero() {
    assert_eq!(Deposit::DISCRIMINATOR, 0);
}

#[test]
fn deposit_without_accounts_fails_on_the_accounts() {
    let program = Address::from([0u8; 32]);
    let accounts: Vec<AccountView> = Vec::new();
    let data = deposit_buffer(0, 5, 2);
    assert_eq!(
        process(&program, &accounts, &data).err(),
        Some(AccessError::AccountArityMismatch)
    );
    assert_eq!(
        Deposit::try_from(&data, &accounts).err(),
        Some(AccessError::AccountArityMismatch)
    );
    assert_eq!(
        DepositAccounts::try_from(&accounts).err(),
        Some(AccessError::AccountArityMismatch)
    );
}

#[test]
fn accounts_are_bound_before_the_payload_is_decoded() {
    let program = Address::from([0u8; 32]);
    let accounts: Vec<AccountView> = Vec::new();
    // tag alone: the payload is malformed too, but the accounts come first
    assert_eq!(
        process(&program, &accounts, &[0u8]).err(),
        Some(AccessError::AccountArityMismatch)
    );
}
