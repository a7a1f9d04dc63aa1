//! Tests for the host state machine: storage reads and writes, logs,
//! code updates, selfdestruct and the merge.

use evmhost::message::StorageStatus;
use evmhost::state::{FatalHostError, TestHostContext, Value};
use evmhost::types::{Address, Bytes32, Uint256};

fn addr(b: u8) -> Address {
    Address([b; 20])
}

fn word(b: u8) -> Bytes32 {
    Bytes32([b; 32])
}

#[test]
fn get_storage_unwritten_is_zero() {
    let ctx = TestHostContext::new(0, addr(1));
    assert_eq!(ctx.get_storage(&addr(2), &word(3)), Bytes32([0u8; 32]));
    assert_eq!(ctx.get_storage(&addr(0), &word(0)), Bytes32([0u8; 32]));
    assert_eq!(ctx.get_storage(&addr(255), &word(255)), Bytes32([0u8; 32]));
}

#[test]
fn set_storage_status_transitions() {
    let mut ctx = TestHostContext::new(0, addr(1));
    let a = addr(9);
    let k = word(1);
    assert_eq!(ctx.set_storage(a, k, word(10)), StorageStatus::Added);
    assert_eq!(ctx.set_storage(a, k, word(10)), StorageStatus::Unchanged);
    assert_eq!(ctx.set_storage(a, k, word(11)), StorageStatus::Modified);
    assert_eq!(ctx.set_storage(a, k, word(12)), StorageStatus::ModifiedAgain);
    assert_eq!(ctx.set_storage(a, k, word(12)), StorageStatus::Unchanged);
    assert_eq!(ctx.set_storage(a, k, word(10)), StorageStatus::ModifiedAgain);
}

#[test]
fn two_identical_writes_added_then_unchanged() {
    let mut ctx = TestHostContext::new(0, addr(1));
    let a = addr(4);
    let k = word(0);
    let v = word(42);
    assert_eq!(ctx.set_storage(a, k, v), StorageStatus::Added);
    assert_eq!(ctx.set_storage(a, k, v), StorageStatus::Unchanged);
    assert_eq!(ctx.get_storage(&a, &k), v);
}

#[test]
fn get_storage_returns_written_value() {
    let mut ctx = TestHostContext::new(0, addr(1));
    let a = addr(7);
    ctx.set_storage(a, word(1), word(100));
    ctx.set_storage(a, word(2), word(200));
    assert_eq!(ctx.get_storage(&a, &word(1)), word(100));
    assert_eq!(ctx.get_storage(&a, &word(2)), word(200));
    assert_eq!(ctx.get_storage(&a, &word(3)), Bytes32([0u8; 32]));
    assert_eq!(ctx.get_storage(&addr(8), &word(1)), Bytes32([0u8; 32]));
}

#[test]
fn value_update_data_counts_changes() {
    let mut v = Value::new(word(5));
    assert_eq!(v.modify_time, 0);
    assert!(!v.update_data(word(5)));
    assert_eq!(v.modify_time, 0);
    assert!(v.update_data(word(6)));
    assert_eq!(v.modify_time, 1);
    assert!(v.update_data(word(7)));
    assert_eq!(v.modify_time, 2);
    assert!(!v.update_data(word(7)));
    assert_eq!(v.modify_time, 2);
}

#[test]
fn update_code_and_contract_exists() {
    let mut ctx = TestHostContext::new(0, addr(1));
    let a = addr(5);
    assert!(!ctx.contract_exists(&a));
    ctx.update_code(a, vec![1, 2, 3]);
    assert!(ctx.contract_exists(&a));
    assert!(!ctx.contract_exists(&addr(6)));
    let account = ctx.accounts.iter().find(|acc| acc.address == a).unwrap();
    assert_eq!(account.code.as_ref().unwrap().0, vec![1, 2, 3]);
    assert_eq!(account.nonce, 0);
}

#[test]
fn emit_log_appends_in_order() {
    let mut ctx = TestHostContext::new(0, addr(1));
    let a = addr(5);
    ctx.emit_log(&a, &[1, 2], &[word(9)]);
    ctx.emit_log(&a, &[3], &[word(8), word(7)]);
    let account = ctx.accounts.iter().find(|acc| acc.address == a).unwrap();
    assert_eq!(account.logs.len(), 2);
    assert_eq!(account.logs[0].data.0, vec![1, 2]);
    assert_eq!(account.logs[0].topics, vec![word(9)]);
    assert_eq!(account.logs[1].data.0, vec![3]);
    assert_eq!(account.logs[1].topics, vec![word(8), word(7)]);
}

#[test]
fn selfdestruct_appends_address() {
    let mut ctx = TestHostContext::new(0, addr(1));
    ctx.selfdestruct(&addr(3), &addr(4));
    ctx.selfdestruct(&addr(5), &addr(4));
    assert_eq!(ctx.destructed_accounts, vec![addr(3), addr(5)]);
}

#[test]
fn nonce_u256_big_endian_in_last_eight_bytes() {
    let mut ctx = TestHostContext::new(0, addr(1));
    ctx.update_code(addr(2), vec![0]);
    let mut account = ctx.accounts.pop().unwrap();
    account.nonce = 0x0102030405060708;
    let n = account.nonce_u256();
    let mut expected = [0u8; 32];
    expected[24] = 0x01;
    expected[25] = 0x02;
    expected[26] = 0x03;
    expected[27] = 0x04;
    expected[28] = 0x05;
    expected[29] = 0x06;
    expected[30] = 0x07;
    expected[31] = 0x08;
    assert_eq!(n, Uint256(expected));

    let mut account_one = evmhost::state::AccountData::new(addr(3));
    account_one.nonce = 1;
    let n1 = account_one.nonce_u256();
    assert_eq!(n1.0[31], 1);
    assert!(n1.0[..31].iter().all(|&b| b == 0));
}

#[test]
fn update_replaces_accounts_and_destructed() {
    let mut parent = TestHostContext::new(0, addr(1));
    parent.set_storage(addr(2), word(1), word(5));
    let mut child = parent.duplicate();
    child.set_storage(addr(3), word(1), word(6));
    child.selfdestruct(&addr(9), &addr(4));
    parent.update(&child);
    assert_eq!(parent.depth, 0);
    assert_eq!(parent.accounts.len(), 2);
    assert_eq!(parent.get_storage(&addr(2), &word(1)), word(5));
    assert_eq!(parent.get_storage(&addr(3), &word(1)), word(6));
    assert_eq!(parent.destructed_accounts, vec![addr(9)]);
}

#[test]
fn try_update_rejects_shrunken_destructed_list() {
    let mut parent = TestHostContext::new(0, addr(1));
    parent.selfdestruct(&addr(2), &addr(3));
    let child = TestHostContext::new(1, addr(1));
    let err = parent.try_update(&child).unwrap_err();
    assert_eq!(err, FatalHostError::DestructedAccountsShrunk);
    assert_eq!(parent.destructed_accounts, vec![addr(2)]);
}

#[test]
fn try_update_rejects_destructed_account_still_present() {
    let mut parent = TestHostContext::new(0, addr(1));
    let mut child = TestHostContext::new(1, addr(1));
    child.set_storage(addr(7), word(0), word(1));
    child.selfdestruct(&addr(7), &addr(3));
    let err = parent.try_update(&child).unwrap_err();
    assert_eq!(err, FatalHostError::DestructedAccountPresent);
    assert_eq!(parent.accounts.len(), 0);
}

#[test]
fn try_update_accepts_sound_merge() {
    let mut parent = TestHostContext::new(0, addr(1));
    let mut child = parent.duplicate();
    child.set_storage(addr(7), word(0), word(1));
    child.selfdestruct(&addr(8), &addr(3));
    assert!(parent.try_update(&child).is_ok());
    assert_eq!(parent.destructed_accounts, vec![addr(8)]);
    assert_eq!(parent.get_storage(&addr(7), &word(0)), word(1));
}

#[test]
fn stub_callbacks_return_fixed_values() {
    let ctx = TestHostContext::new(0, addr(1));
    assert!(ctx.account_exists(&addr(2)));
    assert_eq!(ctx.get_balance(&addr(2)), Uint256([0u8; 32]));
    assert_eq!(ctx.get_code_size(&addr(2)), 0);
    assert_eq!(ctx.get_code_hash(&addr(2)), Bytes32([0u8; 32]));
    assert_eq!(ctx.get_block_hash(7), Bytes32([0u8; 32]));
    assert_eq!(ctx.copy_code(&addr(2), 0, &[0u8; 4]), 0);
}

#[test]
fn tx_context_fixed_metadata() {
    let ctx = TestHostContext::new(0, addr(1));
    let tx = ctx.get_tx_context();
    assert_eq!(tx.tx_gas_price, Uint256([0u8; 32]));
    assert_eq!(tx.tx_origin, Address([128u8; 20]));
    assert_eq!(tx.block_coinbase, Address([0u8; 20]));
    assert_eq!(tx.block_number, 1);
    assert_eq!(tx.block_timestamp, 1);
    assert_eq!(tx.block_gas_limit, 666_666_666);
    assert_eq!(tx.block_difficulty, Uint256([0u8; 32]));
    assert_eq!(tx.chain_id, Uint256([0u8; 32]));
}

#[test]
fn check_well_formed_spots_duplicates() {
    let mut ctx = TestHostContext::new(0, addr(1));
    ctx.set_storage(addr(2), word(1), word(5));
    ctx.update_code(addr(3), vec![1]);
    assert!(ctx.check_well_formed());

    // a context assembled by hand with a duplicated address is refused
    let dup = ctx.accounts[0].duplicate();
    ctx.accounts.push(dup);
    assert!(!ctx.check_well_formed());
}

#[test]
fn duplicate_is_deep_and_equal() {
    let mut ctx = TestHostContext::new(3, addr(1));
    ctx.set_storage(addr(2), word(1), word(5));
    ctx.update_code(addr(2), vec![9, 9]);
    ctx.emit_log(&addr(2), &[1], &[word(2)]);
    ctx.selfdestruct(&addr(6), &addr(7));
    let mut copy = ctx.duplicate();
    assert_eq!(copy.depth, 3);
    assert_eq!(copy.current_account, addr(1));
    assert_eq!(copy.get_storage(&addr(2), &word(1)), word(5));
    assert_eq!(copy.destructed_accounts, vec![addr(6)]);
    // a deep copy: changing the copy leaves the original alone
    copy.set_storage(addr(2), word(1), word(6));
    assert_eq!(ctx.get_storage(&addr(2), &word(1)), word(5));
    assert_eq!(copy.get_storage(&addr(2), &word(1)), word(6));
}
