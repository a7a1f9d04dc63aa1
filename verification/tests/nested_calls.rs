//! Tests for the recursive call engine: preparation, address
//! derivation, the commit/merge step, and the end-to-end deploy/call
//! scenarios with the test driving the interpreter's part.

use evmhost::calls::{derive_create2_address, derive_create_address};
use evmhost::message::{CallKind, ExecutionMessage, ExecutionResult, StatusCode};
use evmhost::state::{FatalHostError, TestHostContext};
use evmhost::types::{Address, Bytes32, Uint256};

fn addr(b: u8) -> Address {
    Address([b; 20])
}

fn word(b: u8) -> Bytes32 {
    Bytes32([b; 32])
}

fn message(kind: CallKind, destination: Address, sender: Address, input: Vec<u8>) -> ExecutionMessage {
    ExecutionMessage {
        kind,
        flags: 0,
        depth: 0,
        gas: 4_400_000,
        destination,
        sender,
        input_data: input,
        value: Uint256([0u8; 32]),
        create2_salt: Bytes32([1u8; 32]),
    }
}

fn success(output: Vec<u8>) -> ExecutionResult {
    ExecutionResult {
        status_code: StatusCode::Success,
        gas_left: 100,
        output_data: output,
        create_address: Address([0u8; 20]),
    }
}

#[test]
fn child_runs_one_level_deeper() {
    let mut root = TestHostContext::new(0, addr(1));
    let mut msg = message(CallKind::Create, addr(0), addr(2), vec![1, 2, 3]);
    msg.depth = 5;
    let prep = root.prepare_call(&msg).unwrap();
    assert_eq!(prep.child.depth, 6);
    assert_eq!(prep.message.depth, 5);
}

#[test]
fn create_resolves_code_from_input_and_derives_address() {
    let mut root = TestHostContext::new(0, addr(1));
    let sender = addr(2);
    let init_code = vec![0x60, 0x01, 0x60, 0x02];
    let msg = message(CallKind::Create, addr(0), sender, init_code.clone());
    let prep = root.prepare_call(&msg).unwrap();
    assert_eq!(prep.code, init_code);
    let expected = derive_create_address(&sender, 0);
    assert_eq!(prep.message.destination, expected);
    assert_eq!(prep.child.current_account, expected);
    // the derivation is deterministic: the same inputs give the same address
    assert_eq!(derive_create_address(&sender, 0), expected);
    // sender account was created lazily to read its nonce
    assert!(root.accounts.iter().any(|acc| acc.address == sender));
}

#[test]
fn create2_mixes_salt_and_init_code() {
    let sender = addr(2);
    let a1 = derive_create2_address(&sender, &word(1), &[1, 2, 3]);
    let a2 = derive_create2_address(&sender, &word(1), &[1, 2, 3]);
    let a3 = derive_create2_address(&sender, &word(2), &[1, 2, 3]);
    let a4 = derive_create2_address(&sender, &word(1), &[1, 2, 4]);
    assert_eq!(a1, a2);
    assert_ne!(a1, a3);
    assert_ne!(a1, a4);
}

#[test]
fn call_into_missing_account_is_fatal() {
    let mut root = TestHostContext::new(0, addr(1));
    let msg = message(CallKind::Call, addr(9), addr(2), vec![]);
    let err = root.prepare_call(&msg).unwrap_err();
    assert_eq!(err, FatalHostError::MissingAccount);
}

#[test]
fn call_into_account_without_code_is_fatal() {
    let mut root = TestHostContext::new(0, addr(1));
    // the account exists (it has storage) but holds no code
    root.set_storage(addr(9), word(0), word(1));
    let msg = message(CallKind::Call, addr(9), addr(2), vec![]);
    let err = root.prepare_call(&msg).unwrap_err();
    assert_eq!(err, FatalHostError::MissingCode);
}

#[test]
fn call_resolves_stored_code() {
    let mut root = TestHostContext::new(0, addr(1));
    root.update_code(addr(9), vec![7, 7, 7]);
    let msg = message(CallKind::Call, addr(9), addr(2), vec![1]);
    let prep = root.prepare_call(&msg).unwrap();
    assert_eq!(prep.code, vec![7, 7, 7]);
    assert_eq!(prep.message.destination, addr(9));
    assert_eq!(prep.child.current_account, addr(9));
}

#[test]
fn finish_call_stamps_result_and_merges() {
    let mut root = TestHostContext::new(0, addr(1));
    let msg = message(CallKind::Call, addr(9), addr(2), vec![]);
    root.update_code(addr(9), vec![1]);
    let prep = root.prepare_call(&msg).unwrap();
    let mut child = prep.child;
    child.set_storage(addr(9), word(0), word(55));
    let res = root
        .finish_call(child, addr(9), false, success(vec![4, 5]))
        .unwrap();
    assert_eq!(res.create_address, addr(9));
    assert_eq!(res.output_data, vec![4, 5]);
    assert_eq!(res.status_code, StatusCode::Success);
    assert_eq!(root.get_storage(&addr(9), &word(0)), word(55));
}

#[test]
fn finish_call_rejects_unsound_merge() {
    let mut root = TestHostContext::new(0, addr(1));
    root.selfdestruct(&addr(3), &addr(4));
    let child = TestHostContext::new(1, addr(9));
    let err = root
        .finish_call(child, addr(9), false, success(vec![]))
        .unwrap_err();
    assert_eq!(err, FatalHostError::DestructedAccountsShrunk);
}

/// Deploys init code that stores 123 at slot 0 and returns runtime
/// code, then calls the deployed address and reads the stored word
/// back. The test plays the interpreter's part between `prepare_call`
/// and `finish_call`.
#[test]
fn deploy_then_call_getter_returns_123() {
    let mut root = TestHostContext::new(0, addr(1));
    let sender = addr(2);
    let runtime_code: Vec<u8> = vec![0x60, 0x00, 0x54];
    let init_code: Vec<u8> = vec![0x7b, 0x60, 0x00, 0x55];

    // deployment: run the init code in the child rooted at the derived
    // address; it stores 0x7b at slot 0 and returns the runtime code
    let create_msg = message(CallKind::Create, addr(0), sender, init_code.clone());
    let prep = root.prepare_call(&create_msg).unwrap();
    assert_eq!(prep.code, init_code);
    let deployed = prep.message.destination;
    let mut child = prep.child;
    let mut stored = [0u8; 32];
    stored[31] = 0x7b;
    child.set_storage(deployed, Bytes32([0u8; 32]), Bytes32(stored));
    let res = root
        .finish_call(child, deployed, true, success(runtime_code.clone()))
        .unwrap();
    assert_eq!(res.create_address, deployed);

    // the runtime code is now stored at the deployed address
    assert!(root.contract_exists(&deployed));

    // the call: the getter loads slot 0 and returns it
    let call_msg = message(CallKind::Call, deployed, sender, vec![]);
    let prep = root.prepare_call(&call_msg).unwrap();
    assert_eq!(prep.code, runtime_code);
    let child = prep.child;
    let loaded = child.get_storage(&deployed, &Bytes32([0u8; 32]));
    assert_eq!(loaded, Bytes32(stored));
    let res = root
        .finish_call(child, deployed, false, success(loaded.0.to_vec()))
        .unwrap();
    assert_eq!(res.output_data.len(), 32);
    assert_eq!(res.output_data[31], 0x7b);
    assert!(res.output_data[..31].iter().all(|&b| b == 0));
}

/// The parent's account set after the merge contains its pre-call
/// accounts and everything the child added.
#[test]
fn merge_keeps_parent_and_child_accounts()
{
    let mut root = TestHostContext::new(0, addr(1));
    root.set_storage(addr(3), word(0), word(1));
    root.update_code(addr(9), vec![1]);
    let msg = message(CallKind::Call, addr(9), addr(2), vec![]);
    let prep = root.prepare_call(&msg).unwrap();
    let mut child = prep.child;
    child.set_storage(addr(4), word(0), word(2));
    root.finish_call(child, addr(9), false, success(vec![])).unwrap();
    for a in [addr(3), addr(9), addr(2), addr(4)] {
        assert!(root.accounts.iter().any(|acc| acc.address == a));
    }
}
