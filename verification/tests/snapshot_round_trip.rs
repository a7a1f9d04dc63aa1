//! Tests for the snapshot form of the host state: the round trip and
//! the rejection of malformed snapshots.

use evmhost::snapshot::{SnapshotState, SnapshotValue};
use evmhost::state::TestHostContext;
use evmhost::types::{Address, Bytes32};

fn addr(b: u8) -> Address {
    Address([b; 20])
}

fn word(b: u8) -> Bytes32 {
    Bytes32([b; 32])
}

fn populated_context() -> TestHostContext {
    let mut ctx = TestHostContext::new(2, addr(1));
    ctx.set_storage(addr(2), word(1), word(5));
    ctx.set_storage(addr(2), word(1), word(6));
    ctx.set_storage(addr(3), word(9), word(7));
    ctx.update_code(addr(2), vec![0x60, 0x01]);
    ctx.emit_log(&addr(2), &[1, 2, 3], &[word(4), word(5)]);
    ctx.selfdestruct(&addr(9), &addr(1));
    ctx
}

#[test]
fn snapshot_round_trip_reproduces_state() {
    let ctx = populated_context();
    let snapshot = ctx.to_snapshot();
    let back = snapshot.to_context().unwrap();

    assert_eq!(back.depth, ctx.depth);
    assert_eq!(back.current_account, ctx.current_account);
    assert_eq!(back.destructed_accounts, ctx.destructed_accounts);
    assert_eq!(back.accounts.len(), ctx.accounts.len());
    for (a, b) in ctx.accounts.iter().zip(back.accounts.iter()) {
        assert_eq!(a.nonce, b.nonce);
        assert_eq!(a.address, b.address);
        assert_eq!(a.code, b.code);
        assert_eq!(a.storage.len(), b.storage.len());
        for ((ka, va), (kb, vb)) in a.storage.iter().zip(b.storage.iter()) {
            assert_eq!(ka, kb);
            assert_eq!(va.data, vb.data);
            assert_eq!(va.modify_time, vb.modify_time);
        }
        assert_eq!(a.logs.len(), b.logs.len());
        for (la, lb) in a.logs.iter().zip(b.logs.iter()) {
            assert_eq!(la.data, lb.data);
            assert_eq!(la.topics, lb.topics);
        }
    }
}

#[test]
fn snapshot_fields_are_hex_text() {
    let ctx = populated_context();
    let snapshot = ctx.to_snapshot();
    assert_eq!(snapshot.current_account, b"01".repeat(20));
    assert_eq!(snapshot.destructed_accounts, vec![b"09".repeat(20)]);
    let account = snapshot
        .accounts
        .iter()
        .find(|a| a.address == b"02".repeat(20))
        .unwrap();
    assert_eq!(account.code.as_ref().unwrap().as_slice(), b"6001");
    assert_eq!(account.storage[0].0, b"01".repeat(32));
    assert_eq!(account.storage[0].1.data, b"06".repeat(32));
    assert_eq!(account.storage[0].1.modify_time, 1);
}

#[test]
fn malformed_snapshot_is_rejected() {
    let ctx = populated_context();

    // a current account that is not hexadecimal text
    let mut snapshot = ctx.to_snapshot();
    snapshot.current_account = b"zz".repeat(20);
    assert!(snapshot.to_context().is_err());

    // an address of the wrong width
    let mut snapshot = ctx.to_snapshot();
    snapshot.accounts[0].address = b"ab".to_vec();
    assert!(snapshot.to_context().is_err());

    // a storage word of odd length
    let mut snapshot = ctx.to_snapshot();
    snapshot.accounts[0].storage[0].1 =
        SnapshotValue { data: b"abc".to_vec(), modify_time: 0 };
    assert!(snapshot.to_context().is_err());
}

#[test]
fn empty_state_round_trips() {
    let ctx = TestHostContext::new(0, addr(0));
    let back = ctx.to_snapshot().to_context().unwrap();
    assert_eq!(back.depth, 0);
    assert_eq!(back.accounts.len(), 0);
    assert_eq!(back.destructed_accounts.len(), 0);
    assert!(SnapshotState {
        depth: 0,
        current_account: b"00".repeat(20),
        accounts: vec![],
        destructed_accounts: vec![],
    }
    .to_context()
    .is_ok());
}
