use claud_coin::account::Account;
use claud_coin::error::ProcessError;

fn account(data: Vec<u8>) -> Account {
    Account { key: [3; 32], is_signer: true, lamports: 42, data }
}

#[test]
fn an_empty_slot_takes_the_record_as_it_is() {
    let mut slot = account(vec![]);
    assert_eq!(slot.store(&[1, 2, 3]), Ok(()));
    assert_eq!(slot, account(vec![1, 2, 3]));
}

#[test]
fn a_slot_of_the_same_size_is_overwritten() {
    let mut slot = account(vec![9, 9, 9]);
    assert_eq!(slot.store(&[1, 2, 3]), Ok(()));
    assert_eq!(slot, account(vec![1, 2, 3]));
}

#[test]
fn a_longer_slot_keeps_its_length_and_its_tail() {
    let mut slot = account(vec![9, 8, 7, 6, 5]);
    assert_eq!(slot.store(&[1, 2, 3]), Ok(()));
    assert_eq!(slot, account(vec![1, 2, 3, 6, 5]));
}

#[test]
fn a_shorter_slot_that_holds_bytes_refuses_the_record() {
    let mut slot = account(vec![9, 8]);
    assert_eq!(slot.store(&[1, 2, 3]), Err(ProcessError::AccountDataTooSmall));
    assert_eq!(slot, account(vec![9, 8]));
}

#[test]
fn storing_nothing_changes_nothing() {
    let mut slot = account(vec![9, 8]);
    assert_eq!(slot.store(&[]), Ok(()));
    assert_eq!(slot, account(vec![9, 8]));
    let mut empty = account(vec![]);
    assert_eq!(empty.store(&[]), Ok(()));
    assert_eq!(empty, account(vec![]));
}

#[test]
fn overwriting_needs_room() {
    let mut slot = account(vec![9, 8, 7, 6, 5]);
    assert_eq!(slot.overwrite(&[1, 2, 3]), Ok(()));
    assert_eq!(slot, account(vec![1, 2, 3, 6, 5]));
    let mut exact = account(vec![9, 8, 7]);
    assert_eq!(exact.overwrite(&[1, 2, 3]), Ok(()));
    assert_eq!(exact, account(vec![1, 2, 3]));
    let mut short = account(vec![9, 8]);
    assert_eq!(short.overwrite(&[1, 2, 3]), Err(ProcessError::AccountDataTooSmall));
    assert_eq!(short, account(vec![9, 8]));
}

#[test]
fn overwriting_an_empty_slot_is_refused() {
    let mut empty = account(vec![]);
    assert_eq!(empty.overwrite(&[1, 2, 3]), Err(ProcessError::AccountDataTooSmall));
    assert_eq!(empty, account(vec![]));
    assert_eq!(empty.overwrite(&[]), Ok(()));
    assert_eq!(empty, account(vec![]));
}
