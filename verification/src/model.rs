//! Mathematical model of the host state.
//!
//! Every executable data type of the state machine has a ghost mirror
//! here; the contracts of the executable operations are stated over these
//! models. The lemmas at the end relate sequence edits (push, update at
//! an index) to the account- and slot-lookup functions.

use vstd::prelude::*;
use crate::types::zero_word;
use crate::message::StorageStatus;

verus! {

/// Model of one storage slot: the stored word and how many writes have
/// changed it so far (`modify_time` starts at 0 and increments exactly
/// when a write changes the data).
pub ghost struct ValueModel {
    pub data: Seq<u8>,
    pub modify_time: nat,
}

/// Model of one emitted log entry.
pub ghost struct LogModel {
    pub data: Seq<u8>,
    pub topics: Seq<Seq<u8>>,
}

/// Model of one account.
pub ghost struct AccountModel {
    pub nonce: u64,
    pub address: Seq<u8>,
    pub code: Option<Seq<u8>>,
    pub storage: Seq<(Seq<u8>, ValueModel)>,
    pub logs: Seq<LogModel>,
}

/// Model of the whole host state.
pub ghost struct StateModel {
    pub depth: u32,
    pub current_account: Seq<u8>,
    pub accounts: Seq<AccountModel>,
    pub destructed_accounts: Seq<Seq<u8>>,
}

impl AccountModel {
    /// Well-formedness: a 20-byte address and no duplicate storage keys.
    pub open spec fn wf(self) -> bool {
        &&& self.address.len() == 20
        &&& forall|i: int, j: int|
            0 <= i < j < self.storage.len() ==> self.storage[i].0 != self.storage[j].0
    }

    /// Whether the account holds a storage entry for key `k`.
    pub open spec fn has_slot(self, k: Seq<u8>) -> bool {
        exists|i: int| 0 <= i < self.storage.len() && self.storage[i].0 == k
    }

    /// Index of the storage entry for key `k` (meaningful when `has_slot`).
    pub open spec fn slot_idx(self, k: Seq<u8>) -> int {
        choose|i: int| 0 <= i < self.storage.len() && self.storage[i].0 == k
    }

    /// The storage entry for key `k`, if any.
    pub open spec fn slot_entry(self, k: Seq<u8>) -> Option<ValueModel> {
        if self.has_slot(k) {
            Some(self.storage[self.slot_idx(k)].1)
        } else {
            None
        }
    }
}

impl StateModel {
    /// Well-formedness: no duplicate account addresses, and each account
    /// well-formed.
    pub open spec fn wf(self) -> bool {
        &&& forall|i: int, j: int|
            0 <= i < j < self.accounts.len()
                ==> self.accounts[i].address != self.accounts[j].address
        &&& forall|i: int| 0 <= i < self.accounts.len() ==> (#[trigger] self.accounts[i]).wf()
    }

    /// Whether an account with address `a` exists.
    pub open spec fn has_acct(self, a: Seq<u8>) -> bool {
        exists|i: int| 0 <= i < self.accounts.len() && self.accounts[i].address == a
    }

    /// Index of the account with address `a` (meaningful when `has_acct`).
    pub open spec fn acct_idx(self, a: Seq<u8>) -> int {
        choose|i: int| 0 <= i < self.accounts.len() && self.accounts[i].address == a
    }

    /// The account with address `a` (meaningful when `has_acct`).
    pub open spec fn acct(self, a: Seq<u8>) -> AccountModel {
        self.accounts[self.acct_idx(a)]
    }

    /// The account with address `a`, if any.
    pub open spec fn account_state(self, a: Seq<u8>) -> Option<AccountModel> {
        if self.has_acct(a) {
            Some(self.acct(a))
        } else {
            None
        }
    }

    /// The storage entry of account `a` at key `k`, if any.
    pub open spec fn storage_entry(self, a: Seq<u8>, k: Seq<u8>) -> Option<ValueModel> {
        match self.account_state(a) {
            Some(acc) => acc.slot_entry(k),
            None => None,
        }
    }

    /// The stored word of account `a` at key `k`; the zero word when no
    /// entry exists.
    pub open spec fn storage_word(self, a: Seq<u8>, k: Seq<u8>) -> Seq<u8> {
        match self.storage_entry(a, k) {
            Some(v) => v.data,
            None => zero_word(),
        }
    }
}

/// When a merge from `source` into `target` is sound: the source's
/// destructed-address list has not shrunk, and no destructed address
/// still has an account in the source.
pub open spec fn merge_ok(target: StateModel, source: StateModel) -> bool {
    &&& source.destructed_accounts.len() >= target.destructed_accounts.len()
    &&& forall|i: int|
        0 <= i < source.destructed_accounts.len()
            ==> !source.has_acct(#[trigger] source.destructed_accounts[i])
}

/// The model of an account that was just created lazily for address `a`.
pub open spec fn fresh_account_model(a: Seq<u8>) -> AccountModel {
    AccountModel {
        nonce: 0,
        address: a,
        code: None,
        storage: Seq::empty(),
        logs: Seq::empty(),
    }
}

/// The account an operation starts from: the existing one, or a fresh
/// one created lazily for address `a`.
pub open spec fn or_fresh(acc: Option<AccountModel>, a: Seq<u8>) -> AccountModel {
    match acc {
        Some(existing) => existing,
        None => fresh_account_model(a),
    }
}

/// The storage entry that a write of `value` leaves behind, given the
/// entry `prev` that the write found: an absent entry is created with
/// `modify_time` 0; a changed entry gets the new data and a bumped
/// `modify_time`; an unchanged entry stays as it is.
pub open spec fn next_slot_value(prev: Option<ValueModel>, value: Seq<u8>) -> ValueModel {
    match prev {
        None => ValueModel { data: value, modify_time: 0 },
        Some(p) => if p.data == value {
            p
        } else {
            ValueModel { data: value, modify_time: p.modify_time + 1 }
        },
    }
}

/// Whether a write of `value` changes the entry `prev` it finds.
pub open spec fn slot_write_changed(prev: Option<ValueModel>, value: Seq<u8>) -> bool {
    match prev {
        None => false,
        Some(p) => p.data != value,
    }
}

/// The status a write of `value` reports, given the entry `prev` it
/// found: a created entry is `Added`, the first change of an entry is
/// `Modified`, a later change is `ModifiedAgain`, and a write that left
/// the data as it was is `Unchanged`.
pub open spec fn storage_status_of(prev: Option<ValueModel>, value: Seq<u8>) -> StorageStatus {
    match prev {
        None => StorageStatus::Added,
        Some(p) => if p.data == value {
            StorageStatus::Unchanged
        } else if p.modify_time + 1 == 1 {
            StorageStatus::Modified
        } else {
            StorageStatus::ModifiedAgain
        },
    }
}

/// A matching account index is the account index: with no duplicate
/// addresses, any index holding address `a` is `acct_idx(a)`.
pub proof fn lemma_acct_idx(m: StateModel, a: Seq<u8>, i: int)
    requires
        m.wf(),
        0 <= i < m.accounts.len(),
        m.accounts[i].address == a,
    ensures
        m.has_acct(a),
        m.acct_idx(a) == i,
        m.account_state(a) == Some(m.accounts[i]),
{
    assert(m.has_acct(a));
    let c = m.acct_idx(a);
    assert(0 <= c < m.accounts.len() && m.accounts[c].address == a);
    if c != i {
        if c < i {
            assert(m.accounts[c].address != m.accounts[i].address);
        } else {
            assert(m.accounts[i].address != m.accounts[c].address);
        }
    }
}

/// A matching slot index is the slot index: with no duplicate keys, any
/// index holding key `k` is `slot_idx(k)`.
pub proof fn lemma_slot_idx(acc: AccountModel, k: Seq<u8>, i: int)
    requires
        acc.wf(),
        0 <= i < acc.storage.len(),
        acc.storage[i].0 == k,
    ensures
        acc.has_slot(k),
        acc.slot_idx(k) == i,
        acc.slot_entry(k) == Some(acc.storage[i].1),
{
    assert(acc.has_slot(k));
    let c = acc.slot_idx(k);
    assert(0 <= c < acc.storage.len() && acc.storage[c].0 == k);
    if c != i {
        if c < i {
            assert(acc.storage[c].0 != acc.storage[i].0);
        } else {
            assert(acc.storage[i].0 != acc.storage[c].0);
        }
    }
}

/// Two states with the same account sequence agree on every account
/// lookup.
pub proof fn lemma_account_state_same_accounts(m1: StateModel, m2: StateModel, b: Seq<u8>)
    requires
        m1.wf(),
        m1.accounts == m2.accounts,
    ensures
        m1.account_state(b) == m2.account_state(b),
        m1.has_acct(b) == m2.has_acct(b),
{
    if m1.has_acct(b) {
        let i = m1.acct_idx(b);
        assert(0 <= i < m1.accounts.len() && m1.accounts[i].address == b);
        lemma_acct_idx(m1, b, i);
        lemma_acct_idx(m2, b, i);
    } else if m2.has_acct(b) {
        let i = m2.acct_idx(b);
        assert(0 <= i < m2.accounts.len() && m2.accounts[i].address == b);
        assert(m1.has_acct(b));
    }
}

/// Replacing the account at index `i` by one with the same address
/// changes the lookup only at that address.
pub proof fn lemma_accounts_update(m: StateModel, m2: StateModel, i: int, acc2: AccountModel)
    requires
        m.wf(),
        0 <= i < m.accounts.len(),
        m2.accounts == m.accounts.update(i, acc2),
        acc2.address == m.accounts[i].address,
        acc2.wf(),
    ensures
        m2.wf(),
        m2.has_acct(acc2.address),
        m2.account_state(acc2.address) == Some(acc2),
        forall|b: Seq<u8>|
            b != acc2.address ==> #[trigger] m2.account_state(b) == m.account_state(b),
{
    let a = acc2.address;
    assert forall|p: int, q: int|
        0 <= p < q < m2.accounts.len() implies m2.accounts[p].address
        != m2.accounts[q].address by {
        assert(m.accounts[p].address != m.accounts[q].address);
    }
    assert forall|p: int| 0 <= p < m2.accounts.len() implies (#[trigger] m2.accounts[p]).wf() by {
        assert(m.accounts[p].wf());
    }
    lemma_acct_idx(m2, a, i);
    assert forall|b: Seq<u8>| b != a implies #[trigger] m2.account_state(b)
        == m.account_state(b) by {
        if m.has_acct(b) {
            let j = m.acct_idx(b);
            assert(0 <= j < m.accounts.len() && m.accounts[j].address == b);
            assert(j != i);
            assert(m2.accounts[j].address == b);
            lemma_acct_idx(m2, b, j);
            lemma_acct_idx(m, b, j);
        } else if m2.has_acct(b) {
            let j = m2.acct_idx(b);
            assert(0 <= j < m2.accounts.len() && m2.accounts[j].address == b);
            assert(j != i);
            assert(m.accounts[j].address == b);
        }
    }
}

/// Appending an account with a fresh address changes the lookup only at
/// that address.
pub proof fn lemma_accounts_push(m: StateModel, m2: StateModel, acc: AccountModel)
    requires
        m.wf(),
        !m.has_acct(acc.address),
        m2.accounts == m.accounts.push(acc),
        acc.wf(),
    ensures
        m2.wf(),
        m2.has_acct(acc.address),
        m2.account_state(acc.address) == Some(acc),
        forall|b: Seq<u8>|
            b != acc.address ==> #[trigger] m2.account_state(b) == m.account_state(b),
{
    let a = acc.address;
    let n = m.accounts.len() as int;
    assert forall|p: int, q: int|
        0 <= p < q < m2.accounts.len() implies m2.accounts[p].address
        != m2.accounts[q].address by {
        if q < n {
            assert(m.accounts[p].address != m.accounts[q].address);
        } else {
            assert(m2.accounts[q] == acc);
            assert(m.accounts[p].address == m2.accounts[p].address);
            if m.accounts[p].address == acc.address {
                assert(m.has_acct(acc.address));
            }
        }
    }
    assert forall|p: int| 0 <= p < m2.accounts.len() implies (#[trigger] m2.accounts[p]).wf() by {
        if p < n {
            assert(m.accounts[p].wf());
        }
    }
    lemma_acct_idx(m2, a, n);
    assert forall|b: Seq<u8>| b != a implies #[trigger] m2.account_state(b)
        == m.account_state(b) by {
        if m.has_acct(b) {
            let j = m.acct_idx(b);
            assert(0 <= j < n && m.accounts[j].address == b);
            assert(m2.accounts[j].address == b);
            lemma_acct_idx(m2, b, j);
            lemma_acct_idx(m, b, j);
        } else if m2.has_acct(b) {
            let j = m2.acct_idx(b);
            assert(0 <= j < m2.accounts.len() && m2.accounts[j].address == b);
            if j < n {
                assert(m.accounts[j].address == b);
            } else {
                assert(m2.accounts[j] == acc);
            }
        }
    }
}

/// Replacing the slot at index `i` by one with the same key changes the
/// slot lookup only at that key.
pub proof fn lemma_storage_update(
    acc: AccountModel,
    acc2: AccountModel,
    i: int,
    entry2: (Seq<u8>, ValueModel),
)
    requires
        acc.wf(),
        0 <= i < acc.storage.len(),
        acc2.storage == acc.storage.update(i, entry2),
        entry2.0 == acc.storage[i].0,
        acc2.address == acc.address,
    ensures
        acc2.wf(),
        acc2.has_slot(entry2.0),
        acc2.slot_entry(entry2.0) == Some(entry2.1),
        forall|k: Seq<u8>| k != entry2.0 ==> #[trigger] acc2.slot_entry(k) == acc.slot_entry(k),
{
    let key = entry2.0;
    assert forall|p: int, q: int|
        0 <= p < q < acc2.storage.len() implies acc2.storage[p].0 != acc2.storage[q].0 by {
        assert(acc.storage[p].0 != acc.storage[q].0);
    }
    lemma_slot_idx(acc2, key, i);
    assert forall|k: Seq<u8>| k != key implies #[trigger] acc2.slot_entry(k)
        == acc.slot_entry(k) by {
        if acc.has_slot(k) {
            let j = acc.slot_idx(k);
            assert(0 <= j < acc.storage.len() && acc.storage[j].0 == k);
            assert(j != i);
            assert(acc2.storage[j].0 == k);
            lemma_slot_idx(acc2, k, j);
            lemma_slot_idx(acc, k, j);
        } else if acc2.has_slot(k) {
            let j = acc2.slot_idx(k);
            assert(0 <= j < acc2.storage.len() && acc2.storage[j].0 == k);
            assert(j != i);
            assert(acc.storage[j].0 == k);
        }
    }
}

/// Appending a slot with a fresh key changes the slot lookup only at
/// that key.
pub proof fn lemma_storage_push(acc: AccountModel, acc2: AccountModel, entry: (Seq<u8>, ValueModel))
    requires
        acc.wf(),
        !acc.has_slot(entry.0),
        acc2.storage == acc.storage.push(entry),
        acc2.address == acc.address,
    ensures
        acc2.wf(),
        acc2.has_slot(entry.0),
        acc2.slot_entry(entry.0) == Some(entry.1),
        forall|k: Seq<u8>| k != entry.0 ==> #[trigger] acc2.slot_entry(k) == acc.slot_entry(k),
{
    let key = entry.0;
    let n = acc.storage.len() as int;
    assert forall|p: int, q: int|
        0 <= p < q < acc2.storage.len() implies acc2.storage[p].0 != acc2.storage[q].0 by {
        if q < n {
            assert(acc.storage[p].0 != acc.storage[q].0);
        } else {
            assert(acc2.storage[q] == entry);
            if acc.storage[p].0 == entry.0 {
                assert(acc.has_slot(entry.0));
            }
        }
    }
    lemma_slot_idx(acc2, key, n);
    assert forall|k: Seq<u8>| k != key implies #[trigger] acc2.slot_entry(k)
        == acc.slot_entry(k) by {
        if acc.has_slot(k) {
            let j = acc.slot_idx(k);
            assert(0 <= j < n && acc.storage[j].0 == k);
            assert(acc2.storage[j].0 == k);
            lemma_slot_idx(acc2, k, j);
            lemma_slot_idx(acc, k, j);
        } else if acc2.has_slot(k) {
            let j = acc2.slot_idx(k);
            assert(0 <= j < acc2.storage.len() && acc2.storage[j].0 == k);
            if j < n {
                assert(acc.storage[j].0 == k);
            } else {
                assert(acc2.storage[j] == entry);
            }
        }
    }
}

} // verus!
