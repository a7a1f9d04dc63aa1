//! The recursive host state machine: accounts, storage, logs, and the
//! operations the interpreter callbacks perform on them.

use vstd::prelude::*;
use crate::types::{Address, Bytes32, JsonBytes, Uint256, zero_address, zero_word};
use crate::model::{
    AccountModel, LogModel, StateModel, ValueModel, fresh_account_model, lemma_accounts_push,
    lemma_accounts_update, lemma_acct_idx, lemma_slot_idx, lemma_storage_push,
    lemma_storage_update, merge_ok, next_slot_value, or_fresh, storage_status_of,
};
use crate::message::{StorageStatus, TxContext};

verus! {

/// One storage slot value: the stored word, and how many writes have
/// changed it (0 right after the entry is created; incremented exactly
/// when a write changes the data).
#[derive(Clone, Copy, Debug)]
pub struct Value {
    pub data: Bytes32,
    pub modify_time: usize,
}

impl View for Value {
    type V = ValueModel;

    open spec fn view(&self) -> ValueModel {
        ValueModel { data: self.data@, modify_time: self.modify_time as nat }
    }
}

impl Value {
    /// A just-created entry holding `data`, never yet changed.
    pub fn new(data: Bytes32) -> (r: Value)
        ensures
            r@ == (ValueModel { data: data@, modify_time: 0 as nat }),
    {
        Value { data, modify_time: 0 }
    }

    /// Writes `data` into the entry: reports whether that changed the
    /// stored word, and bumps `modify_time` exactly when it did. The
    /// counter needs headroom only when the write changes the data.
    pub fn update_data(&mut self, data: Bytes32) -> (changed: bool)
        requires
            data@ != old(self)@.data ==> old(self).modify_time < usize::MAX,
        ensures
            changed == (data@ != old(self)@.data),
            final(self)@ == next_slot_value(Some(old(self)@), data@),
    {
        if data != self.data {
            self.data = data;
            self.modify_time = self.modify_time + 1;
            true
        } else {
            false
        }
    }
}

/// One emitted log entry: opaque payload plus ordered topics.
#[derive(Debug)]
pub struct LogEntry {
    pub data: JsonBytes,
    pub topics: Vec<Bytes32>,
}

impl View for LogEntry {
    type V = LogModel;

    open spec fn view(&self) -> LogModel {
        LogModel { data: self.data@, topics: self.topics@.map_values(|t: Bytes32| t@) }
    }
}

/// A copy of a topics vector holding the same words.
fn clone_topics(v: &Vec<Bytes32>) -> (r: Vec<Bytes32>)
    ensures
        r@ == v@,
{
    let mut r: Vec<Bytes32> = Vec::new();
    let n = v.len();
    let mut i: usize = 0;
    while i < n
        invariant
            i <= n,
            n == v@.len(),
            r@ =~= v@.subrange(0, i as int),
        decreases n - i,
    {
        r.push(v[i]);
        i += 1;
    }
    proof {
        assert(r@ =~= v@);
    }
    r
}

impl LogEntry {
    /// A copy of the entry with the same payload and topics.
    pub fn duplicate(&self) -> (r: LogEntry)
        ensures
            r@ == self@,
    {
        let r = LogEntry { data: self.data.duplicate(), topics: clone_topics(&self.topics) };
        proof {
            assert(r@.topics =~= self@.topics);
        }
        r
    }
}

/// One account: nonce, address, optional stored code, storage entries
/// and the ordered log of events it emitted.
#[derive(Debug)]
pub struct AccountData {
    pub nonce: u64,
    pub address: Address,
    pub code: Option<JsonBytes>,
    pub storage: Vec<(Bytes32, Value)>,
    pub logs: Vec<LogEntry>,
}

impl View for AccountData {
    type V = AccountModel;

    open spec fn view(&self) -> AccountModel {
        AccountModel {
            nonce: self.nonce,
            address: self.address@,
            code: match self.code {
                Some(c) => Some(c@),
                None => None,
            },
            storage: self.storage@.map_values(|e: (Bytes32, Value)| (e.0@, e.1@)),
            logs: self.logs@.map_values(|l: LogEntry| l@),
        }
    }
}

impl AccountData {
    /// A new, empty account for `address`, created lazily on first use.
    pub fn new(address: Address) -> (r: AccountData)
        ensures
            r@ == fresh_account_model(address@),
    {
        let r = AccountData {
            nonce: 0,
            address,
            code: None,
            storage: Vec::new(),
            logs: Vec::new(),
        };
        proof {
            assert(r@.storage =~= fresh_account_model(address@).storage);
            assert(r@.logs =~= fresh_account_model(address@).logs);
            assert(r@ =~= fresh_account_model(address@));
        }
        r
    }

    /// A deep copy of the account, equal to it in the model.
    pub fn duplicate(&self) -> (r: AccountData)
        ensures
            r@ == self@,
    {
        let code = match &self.code {
            Some(c) => Some(c.duplicate()),
            None => None,
        };
        let storage = clone_storage(&self.storage);
        let logs = clone_logs(&self.logs);
        let r = AccountData { nonce: self.nonce, address: self.address, code, logs, storage };
        proof {
            assert(r@.storage =~= self@.storage);
            assert(r@.logs =~= self@.logs);
            assert(r@ =~= self@);
        }
        r
    }
}

/// A copy of a storage vector holding the same entries.
fn clone_storage(v: &Vec<(Bytes32, Value)>) -> (r: Vec<(Bytes32, Value)>)
    ensures
        r@ == v@,
{
    let mut r: Vec<(Bytes32, Value)> = Vec::new();
    let n = v.len();
    let mut i: usize = 0;
    while i < n
        invariant
            i <= n,
            n == v@.len(),
            r@ =~= v@.subrange(0, i as int),
        decreases n - i,
    {
        r.push(v[i]);
        i += 1;
    }
    proof {
        assert(r@ =~= v@);
    }
    r
}

/// A copy of a log vector whose entries equal the originals in the model.
fn clone_logs(v: &Vec<LogEntry>) -> (r: Vec<LogEntry>)
    ensures
        r@.map_values(|l: LogEntry| l@) == v@.map_values(|l: LogEntry| l@),
{
    let mut r: Vec<LogEntry> = Vec::new();
    let n = v.len();
    let mut i: usize = 0;
    while i < n
        invariant
            i <= n,
            n == v@.len(),
            r@.len() == i,
            forall|j: int| 0 <= j < i ==> (#[trigger] r@[j])@ == v@[j]@,
        decreases n - i,
    {
        r.push(v[i].duplicate());
        i += 1;
    }
    proof {
        assert(r@.map_values(|l: LogEntry| l@) =~= v@.map_values(|l: LogEntry| l@));
    }
    r
}

/// Byte `i` of the eight-byte big-endian encoding of `n` (byte 0 is
/// the most significant).
pub open spec fn be_u64_byte(n: u64, i: int) -> u8 {
    (n >> ((8 * (7 - i)) as u64)) as u8
}

/// The 32-byte big-endian integer holding `n`: zero in the leading 24
/// bytes, the big-endian bytes of `n` in the last eight.
pub open spec fn nonce_word(n: u64) -> Seq<u8> {
    Seq::new(32, |i: int| if i < 24 { 0u8 } else { be_u64_byte(n, i - 24) })
}

impl AccountData {
    /// Index of the storage entry holding `key`, if one exists.
    fn find_slot(&self, key: &Bytes32) -> (r: Option<usize>)
        requires
            self@.wf(),
        ensures
            match r {
                Some(j) => {
                    &&& j < self.storage.len()
                    &&& self@.has_slot(key@)
                    &&& self@.slot_idx(key@) == j as int
                    &&& self@.slot_entry(key@) == Some(self@.storage[j as int].1)
                    &&& self@.storage[j as int].0 == key@
                },
                None => !self@.has_slot(key@),
            },
    {
        let n = self.storage.len();
        let mut j: usize = 0;
        while j < n
            invariant
                j <= n,
                n == self.storage.len(),
                self@.wf(),
                forall|p: int| 0 <= p < j ==> self@.storage[p].0 != key@,
            decreases n - j,
        {
            if self.storage[j].0 == *key {
                proof {
                    lemma_slot_idx(self@, key@, j as int);
                }
                return Some(j);
            }
            j += 1;
        }
        proof {
            assert(!self@.has_slot(key@)) by {
                if self@.has_slot(key@) {
                    let p = choose|p: int|
                        0 <= p < self@.storage.len() && self@.storage[p].0 == key@;
                    assert(self@.storage[p].0 != key@);
                }
            }
        }
        None
    }

    /// Writes `value` into the entry for `key`, creating the entry when
    /// absent, and reports the resulting storage status. The entry's
    /// modify counter needs headroom only when the write changes its
    /// data.
    fn set_slot(&mut self, key: Bytes32, value: Bytes32) -> (r: StorageStatus)
        requires
            old(self)@.wf(),
            match old(self)@.slot_entry(key@) {
                Some(v) => v.data != value@ ==> v.modify_time < usize::MAX,
                None => true,
            },
        ensures
            final(self)@.wf(),
            r == storage_status_of(old(self)@.slot_entry(key@), value@),
            final(self)@.slot_entry(key@) == Some(
                next_slot_value(old(self)@.slot_entry(key@), value@),
            ),
            forall|k2: Seq<u8>|
                k2 != key@ ==> #[trigger] final(self)@.slot_entry(k2) == old(self)@.slot_entry(k2),
            final(self)@.nonce == old(self)@.nonce,
            final(self)@.address == old(self)@.address,
            final(self)@.code == old(self)@.code,
            final(self)@.logs == old(self)@.logs,
    {
        match self.find_slot(&key) {
            None => {
                self.storage.push((key, Value::new(value)));
                proof {
                    let entry = (key@, ValueModel { data: value@, modify_time: 0 as nat });
                    assert(self@.storage =~= old(self)@.storage.push(entry));
                    lemma_storage_push(old(self)@, self@, entry);
                }
                StorageStatus::Added
            },
            Some(j) => {
                let stored_key = self.storage[j].0;
                let mut val = self.storage[j].1;
                let changed = val.update_data(value);
                let mt = val.modify_time;
                self.storage[j] = (stored_key, val);
                proof {
                    let entry = (key@, val@);
                    assert(stored_key@ == key@);
                    assert(self@.storage =~= old(self)@.storage.update(j as int, entry));
                    lemma_storage_update(old(self)@, self@, j as int, entry);
                }
                if changed {
                    if mt == 1 {
                        StorageStatus::Modified
                    } else {
                        StorageStatus::ModifiedAgain
                    }
                } else {
                    StorageStatus::Unchanged
                }
            },
        }
    }

    /// Appends one log entry; nothing else of the account changes.
    fn append_log(&mut self, data: Vec<u8>, topics: Vec<Bytes32>)
        ensures
            final(self)@ == (AccountModel {
                logs: old(self)@.logs.push(
                    LogModel { data: data@, topics: topics@.map_values(|t: Bytes32| t@) },
                ),
                ..old(self)@
            }),
    {
        let ghost entry = LogModel { data: data@, topics: topics@.map_values(|t: Bytes32| t@) };
        self.logs.push(LogEntry { data: JsonBytes(data), topics });
        proof {
            assert(self@.logs =~= old(self)@.logs.push(entry));
            assert(self@ =~= (AccountModel { logs: old(self)@.logs.push(entry), ..old(self)@ }));
        }
    }

    /// The account's nonce as a 32-byte big-endian integer.
    pub fn nonce_u256(&self) -> (r: Uint256)
        ensures
            r@ == nonce_word(self.nonce),
    {
        let mut bytes = [0u8; 32];
        let mut i: usize = 0;
        while i < 8
            invariant
                i <= 8,
                forall|j: int| 0 <= j < 24 ==> bytes@[j] == 0u8,
                forall|j: int| 0 <= j < i ==> bytes@[24 + j] == be_u64_byte(self.nonce, j),
                forall|j: int| 24 + i <= j < 32 ==> bytes@[j] == 0u8,
            decreases 8 - i,
        {
            let b = #[verifier::truncate] ((self.nonce >> (8 * (7 - i as u64))) as u8);
            bytes[24 + i] = b;
            i += 1;
        }
        let r = Uint256(bytes);
        proof {
            assert(r@ =~= nonce_word(self.nonce));
        }
        r
    }
}

/// A copy of a byte slice as an owned vector.
fn slice_to_vec(s: &[u8]) -> (r: Vec<u8>)
    ensures
        r@ == s@,
{
    let n = s.len();
    let mut r: Vec<u8> = Vec::new();
    let mut i: usize = 0;
    while i < n
        invariant
            i <= n,
            n == s@.len(),
            r@ =~= s@.subrange(0, i as int),
        decreases n - i,
    {
        r.push(s[i]);
        i += 1;
    }
    proof {
        assert(r@ =~= s@);
    }
    r
}

/// A copy of a topics slice as an owned vector.
fn topics_slice_to_vec(s: &[Bytes32]) -> (r: Vec<Bytes32>)
    ensures
        r@ == s@,
{
    let n = s.len();
    let mut r: Vec<Bytes32> = Vec::new();
    let mut i: usize = 0;
    while i < n
        invariant
            i <= n,
            n == s@.len(),
            r@ =~= s@.subrange(0, i as int),
        decreases n - i,
    {
        r.push(s[i]);
        i += 1;
    }
    proof {
        assert(r@ =~= s@);
    }
    r
}

/// The recursive host context: call depth, the account being executed,
/// the known accounts and the addresses destructed so far.
#[derive(Debug)]
pub struct TestHostContext {
    pub depth: u32,
    pub current_account: Address,
    pub accounts: Vec<AccountData>,
    pub destructed_accounts: Vec<Address>,
}

impl View for TestHostContext {
    type V = StateModel;

    open spec fn view(&self) -> StateModel {
        StateModel {
            depth: self.depth,
            current_account: self.current_account@,
            accounts: self.accounts@.map_values(|a: AccountData| a@),
            destructed_accounts: self.destructed_accounts@.map_values(|a: Address| a@),
        }
    }
}

/// A mutable borrow of one account of the vector; on exit the vector
/// holds whatever the borrow was left as.
fn account_at_mut(v: &mut Vec<AccountData>, i: usize) -> (e: &mut AccountData)
    requires
        i < old(v).len(),
    ensures
        *e == old(v)@[i as int],
        final(v)@ == old(v)@.update(i as int, *final(e)),
{
    &mut v[i]
}

impl TestHostContext {
    /// A fresh host context at the given depth, with no accounts and no
    /// destructed addresses.
    pub fn new(depth: u32, current_account: Address) -> (r: TestHostContext)
        ensures
            r@.wf(),
            r@.depth == depth,
            r@.current_account == current_account@,
            r@.accounts.len() == 0,
            r@.destructed_accounts.len() == 0,
    {
        let r = TestHostContext {
            depth,
            current_account,
            accounts: Vec::new(),
            destructed_accounts: Vec::new(),
        };
        proof {
            assert(r@.accounts =~= Seq::<AccountModel>::empty());
            assert(r@.destructed_accounts =~= Seq::<Seq<u8>>::empty());
        }
        r
    }

    /// Index of the account holding `address`, if one exists.
    pub(crate) fn find_account(&self, address: &Address) -> (r: Option<usize>)
        requires
            self@.wf(),
        ensures
            match r {
                Some(i) => {
                    &&& i < self.accounts.len()
                    &&& self@.has_acct(address@)
                    &&& self@.acct_idx(address@) == i as int
                    &&& self@.account_state(address@) == Some(self@.accounts[i as int])
                },
                None => !self@.has_acct(address@),
            },
    {
        let n = self.accounts.len();
        let mut i: usize = 0;
        while i < n
            invariant
                i <= n,
                n == self.accounts.len(),
                self@.wf(),
                forall|j: int| 0 <= j < i ==> self@.accounts[j].address != address@,
            decreases n - i,
        {
            if self.accounts[i].address == *address {
                proof {
                    lemma_acct_idx(self@, address@, i as int);
                }
                return Some(i);
            }
            i += 1;
        }
        proof {
            assert(!self@.has_acct(address@)) by {
                if self@.has_acct(address@) {
                    let j = choose|j: int|
                        0 <= j < self@.accounts.len() && self@.accounts[j].address == address@;
                    assert(self@.accounts[j].address != address@);
                }
            }
        }
        None
    }

    /// Whether a contract (an account with stored code) exists at
    /// `address`.
    pub fn contract_exists(&self, address: &Address) -> (r: bool)
        requires
            self@.wf(),
        ensures
            r == (self@.has_acct(address@) && self@.acct(address@).code is Some),
    {
        match self.find_account(address) {
            Some(i) => self.accounts[i].code.is_some(),
            None => false,
        }
    }

    /// Index of the account for `address`, creating an empty account
    /// entry when none exists yet.
    pub(crate) fn ensure_account(&mut self, address: &Address) -> (i: usize)
        requires
            old(self)@.wf(),
        ensures
            final(self)@.wf(),
            i < final(self).accounts.len(),
            final(self)@.has_acct(address@),
            final(self)@.acct_idx(address@) == i as int,
            final(self)@.account_state(address@) == Some(
                or_fresh(old(self)@.account_state(address@), address@),
            ),
            forall|b: Seq<u8>|
                b != address@ ==> #[trigger] final(self)@.account_state(b) == old(self)@.account_state(b),
            old(self)@.has_acct(address@) ==> *final(self) == *old(self),
            final(self)@.depth == old(self)@.depth,
            final(self)@.current_account == old(self)@.current_account,
            final(self)@.destructed_accounts == old(self)@.destructed_accounts,
    {
        match self.find_account(address) {
            Some(i) => i,
            None => {
                let n = self.accounts.len();
                let acc = AccountData::new(*address);
                self.accounts.push(acc);
                proof {
                    assert(final(self)@.accounts =~= old(self)@.accounts.push(
                        fresh_account_model(address@),
                    ));
                    lemma_accounts_push(
                        old(self)@,
                        final(self)@,
                        fresh_account_model(address@),
                    );
                    lemma_acct_idx(final(self)@, address@, n as int);
                }
                n
            },
        }
    }

    /// Stores `code` as the account's contract code, creating the
    /// account entry when absent. Everything else is unchanged.
    pub fn update_code(&mut self, address: Address, code: Vec<u8>)
        requires
            old(self)@.wf(),
        ensures
            final(self)@.wf(),
            final(self)@.has_acct(address@),
            final(self)@.account_state(address@) == Some(
                AccountModel {
                    code: Some(code@),
                    ..or_fresh(old(self)@.account_state(address@), address@)
                },
            ),
            forall|b: Seq<u8>|
                b != address@ ==> #[trigger] final(self)@.account_state(b) == old(self)@.account_state(b),
            final(self)@.depth == old(self)@.depth,
            final(self)@.current_account == old(self)@.current_account,
            final(self)@.destructed_accounts == old(self)@.destructed_accounts,
    {
        let ghost pre = old(self)@;
        let i = self.ensure_account(&address);
        let ghost mid = self@;
        let acc = account_at_mut(&mut self.accounts, i);
        acc.code = Some(JsonBytes(code));
        proof {
            let ghost base = or_fresh(pre.account_state(address@), address@);
            assert(mid.accounts[i as int] == base);
            let acc2 = AccountModel { code: Some(code@), ..base };
            assert(final(self)@.accounts =~= mid.accounts.update(i as int, acc2));
            lemma_accounts_update(mid, final(self)@, i as int, acc2);
            assert forall|b: Seq<u8>| b != address@ implies #[trigger] final(self)@.account_state(b) == pre.account_state(b) by {
                assert(final(self)@.account_state(b) == mid.account_state(b));
                assert(mid.account_state(b) == pre.account_state(b));
            }
        }
    }

    /// Reads the stored word of `address` at `key`; the zero word when
    /// no entry exists. Never an error.
    pub fn get_storage(&self, address: &Address, key: &Bytes32) -> (r: Bytes32)
        requires
            self@.wf(),
        ensures
            r@ == self@.storage_word(address@, key@),
    {
        match self.find_account(address) {
            Some(i) => {
                proof {
                    assert(self@.accounts[i as int].wf());
                }
                match self.accounts[i].find_slot(key) {
                    Some(j) => self.accounts[i].storage[j].1.data,
                    None => Bytes32::zero(),
                }
            },
            None => Bytes32::zero(),
        }
    }

    /// Writes `value` into the storage of `address` at `key`, creating
    /// the account and the entry as needed, and reports the storage
    /// status of the write: a created entry is `Added`, a first change
    /// `Modified`, a later change `ModifiedAgain`, and a write that
    /// left the data alone `Unchanged`.
    pub fn set_storage(&mut self, address: Address, key: Bytes32, value: Bytes32) -> (r:
        StorageStatus)
        requires
            old(self)@.wf(),
            match old(self)@.storage_entry(address@, key@) {
                Some(v) => v.data != value@ ==> v.modify_time < usize::MAX,
                None => true,
            },
        ensures
            final(self)@.wf(),
            r == storage_status_of(old(self)@.storage_entry(address@, key@), value@),
            final(self)@.storage_entry(address@, key@) == Some(
                next_slot_value(old(self)@.storage_entry(address@, key@), value@),
            ),
            forall|k2: Seq<u8>|
                k2 != key@ ==> #[trigger] final(self)@.storage_entry(address@, k2) == old(
                    self,
                )@.storage_entry(address@, k2),
            forall|b: Seq<u8>|
                b != address@ ==> #[trigger] final(self)@.account_state(b) == old(
                    self,
                )@.account_state(b),
            final(self)@.has_acct(address@),
            final(self)@.acct(address@).nonce == or_fresh(
                old(self)@.account_state(address@),
                address@,
            ).nonce,
            final(self)@.acct(address@).code == or_fresh(
                old(self)@.account_state(address@),
                address@,
            ).code,
            final(self)@.acct(address@).logs == or_fresh(
                old(self)@.account_state(address@),
                address@,
            ).logs,
            final(self)@.depth == old(self)@.depth,
            final(self)@.current_account == old(self)@.current_account,
            final(self)@.destructed_accounts == old(self)@.destructed_accounts,
    {
        let ghost pre = old(self)@;
        let i = self.ensure_account(&address);
        let ghost mid = self@;
        let ghost base = or_fresh(pre.account_state(address@), address@);
        proof {
            assert(mid.accounts[i as int] == base);
            assert(base.wf());
            assert(base.slot_entry(key@) == pre.storage_entry(address@, key@)) by {
                if pre.has_acct(address@) {
                    assert(pre.account_state(address@) == Some(pre.acct(address@)));
                } else {
                    assert(base == fresh_account_model(address@));
                    if base.has_slot(key@) {
                        let p = choose|p: int|
                            0 <= p < base.storage.len() && base.storage[p].0 == key@;
                        assert(false);
                    }
                }
            }
        }
        let acc = account_at_mut(&mut self.accounts, i);
        let status = acc.set_slot(key, value);
        proof {
            let acc2 = self@.accounts[i as int];
            assert(self@.accounts =~= mid.accounts.update(i as int, acc2));
            assert(acc2.wf());
            assert(acc2.address == base.address);
            assert(base.address == address@);
            lemma_accounts_update(mid, self@, i as int, acc2);
            assert forall|b: Seq<u8>| b != address@ implies #[trigger] self@.account_state(b)
                == pre.account_state(b) by {
                assert(self@.account_state(b) == mid.account_state(b));
                assert(mid.account_state(b) == pre.account_state(b));
            }
            assert forall|k2: Seq<u8>| k2 != key@ implies #[trigger] self@.storage_entry(
                address@,
                k2,
            ) == pre.storage_entry(address@, k2) by {
                assert(self@.account_state(address@) == Some(acc2));
                assert(acc2.slot_entry(k2) == base.slot_entry(k2));
                assert(base.slot_entry(k2) == pre.storage_entry(address@, k2)) by {
                    if pre.has_acct(address@) {
                        assert(pre.account_state(address@) == Some(pre.acct(address@)));
                    } else {
                        assert(base == fresh_account_model(address@));
                        if base.has_slot(k2) {
                            let p = choose|p: int|
                                0 <= p < base.storage.len() && base.storage[p].0 == k2;
                            assert(false);
                        }
                    }
                }
            }
        }
        status
    }

    /// Appends a log entry (payload plus ordered topics) to the account
    /// of `address`, creating the account entry when absent.
    pub fn emit_log(&mut self, address: &Address, data: &[u8], topics: &[Bytes32])
        requires
            old(self)@.wf(),
        ensures
            final(self)@.wf(),
            final(self)@.has_acct(address@),
            final(self)@.account_state(address@) == Some(
                AccountModel {
                    logs: or_fresh(old(self)@.account_state(address@), address@).logs.push(
                        LogModel {
                            data: data@,
                            topics: topics@.map_values(|t: Bytes32| t@),
                        },
                    ),
                    ..or_fresh(old(self)@.account_state(address@), address@)
                },
            ),
            forall|b: Seq<u8>|
                b != address@ ==> #[trigger] final(self)@.account_state(b) == old(
                    self,
                )@.account_state(b),
            final(self)@.depth == old(self)@.depth,
            final(self)@.current_account == old(self)@.current_account,
            final(self)@.destructed_accounts == old(self)@.destructed_accounts,
    {
        let ghost pre = old(self)@;
        let i = self.ensure_account(address);
        let ghost mid = self@;
        let ghost base = or_fresh(pre.account_state(address@), address@);
        let d = slice_to_vec(data);
        let t = topics_slice_to_vec(topics);
        let acc = account_at_mut(&mut self.accounts, i);
        acc.append_log(d, t);
        proof {
            assert(mid.accounts[i as int] == base);
            assert(base.wf());
            let acc2 = self@.accounts[i as int];
            assert(self@.accounts =~= mid.accounts.update(i as int, acc2));
            assert(acc2.storage == base.storage);
            assert(acc2.wf());
            assert(base.address == address@);
            lemma_accounts_update(mid, self@, i as int, acc2);
            assert forall|b: Seq<u8>| b != address@ implies #[trigger] self@.account_state(b)
                == pre.account_state(b) by {
                assert(self@.account_state(b) == mid.account_state(b));
                assert(mid.account_state(b) == pre.account_state(b));
            }
        }
    }

    /// Appends `address` to the destructed-account list; no balance
    /// transfer is modeled, so the beneficiary is unused.
    pub fn selfdestruct(&mut self, address: &Address, _beneficiary: &Address)
        ensures
            final(self)@ == (StateModel {
                destructed_accounts: old(self)@.destructed_accounts.push(address@),
                ..old(self)@
            }),
    {
        self.destructed_accounts.push(*address);
        proof {
            assert(self@.destructed_accounts =~= old(self)@.destructed_accounts.push(address@));
            assert(self@.accounts =~= old(self)@.accounts);
            assert(self@ =~= (StateModel {
                destructed_accounts: old(self)@.destructed_accounts.push(address@),
                ..old(self)@
            }));
        }
    }

    /// Reports whether an account exists; a fixed stub in this
    /// reference host (real deployments answer from chain state).
    pub fn account_exists(&self, _address: &Address) -> (r: bool)
        ensures
            r == true,
    {
        true
    }

    /// The balance of an account; a fixed stub in this reference host.
    pub fn get_balance(&self, _address: &Address) -> (r: Uint256)
        ensures
            r@ == zero_word(),
    {
        Uint256::zero()
    }

    /// The size of an account's code; a fixed stub in this reference
    /// host.
    pub fn get_code_size(&self, _address: &Address) -> (r: usize)
        ensures
            r == 0,
    {
        0
    }

    /// The hash of an account's code; a fixed stub in this reference
    /// host.
    pub fn get_code_hash(&self, _address: &Address) -> (r: Bytes32)
        ensures
            r@ == zero_word(),
    {
        Bytes32::zero()
    }

    /// The hash of a block; a fixed stub in this reference host.
    pub fn get_block_hash(&self, _number: u64) -> (r: Bytes32)
        ensures
            r@ == zero_word(),
    {
        Bytes32::zero()
    }

    /// Copies account code into a caller-supplied buffer, returning the
    /// number of bytes written; a fixed stub in this reference host,
    /// which writes nothing.
    pub fn copy_code(&self, _address: &Address, _code_offset: usize, _buffer: &[u8]) -> (r: usize)
        ensures
            r == 0,
    {
        0
    }

    /// The transaction metadata this host reports; fixed values, cached
    /// once per top-level execution by the boundary layer.
    pub fn get_tx_context(&self) -> (r: TxContext)
        ensures
            r.tx_gas_price@ == zero_word(),
            r.tx_origin@ == Seq::new(20, |i: int| 128u8),
            r.block_coinbase@ == zero_address(),
            r.block_number == 1,
            r.block_timestamp == 1,
            r.block_gas_limit == 666_666_666,
            r.block_difficulty@ == zero_word(),
            r.chain_id@ == zero_word(),
    {
        let origin = Address([128u8; 20]);
        proof {
            assert(origin@ =~= Seq::new(20, |i: int| 128u8));
        }
        TxContext {
            tx_gas_price: Uint256::zero(),
            tx_origin: origin,
            block_coinbase: Address::zero(),
            block_number: 1,
            block_timestamp: 1,
            block_gas_limit: 666_666_666,
            block_difficulty: Uint256::zero(),
            chain_id: Uint256::zero(),
        }
    }

    /// A deep copy of the whole context, equal to it in the model.
    pub fn duplicate(&self) -> (r: TestHostContext)
        ensures
            r@ == self@,
    {
        let r = TestHostContext {
            depth: self.depth,
            current_account: self.current_account,
            accounts: clone_accounts(&self.accounts),
            destructed_accounts: clone_addresses(&self.destructed_accounts),
        };
        proof {
            assert(r@ =~= self@);
        }
        r
    }

    /// Merges the child state `other` into this one: the accounts and
    /// the destructed-address list are taken wholesale from `other`,
    /// which is assumed authoritative. The merge preconditions are the
    /// soundness conditions of `merge_ok`; `try_update` checks them at
    /// run time instead.
    pub fn update(&mut self, other: &TestHostContext)
        requires
            old(self)@.wf(),
            other@.wf(),
            merge_ok(old(self)@, other@),
        ensures
            final(self)@.wf(),
            final(self)@.accounts == other@.accounts,
            final(self)@.destructed_accounts == other@.destructed_accounts,
            final(self)@.depth == old(self)@.depth,
            final(self)@.current_account == old(self)@.current_account,
    {
        self.accounts = clone_accounts(&other.accounts);
        self.destructed_accounts = clone_addresses(&other.destructed_accounts);
    }

    /// Merges the child state `other` into this one after checking the
    /// soundness conditions, reporting the violated condition instead
    /// of performing an unsound merge: a shrunken destructed-address
    /// list, or a destructed address that still has an account.
    #[verifier::loop_isolation(false)]
    pub fn try_update(&mut self, other: &TestHostContext) -> (r: Result<(), FatalHostError>)
        requires
            old(self)@.wf(),
            other@.wf(),
        ensures
            match r {
                Ok(()) => {
                    &&& merge_ok(old(self)@, other@)
                    &&& final(self)@.wf()
                    &&& final(self)@.accounts == other@.accounts
                    &&& final(self)@.destructed_accounts == other@.destructed_accounts
                    &&& final(self)@.depth == old(self)@.depth
                    &&& final(self)@.current_account == old(self)@.current_account
                },
                Err(e) => {
                    &&& !merge_ok(old(self)@, other@)
                    &&& *final(self) == *old(self)
                    &&& e == (if other@.destructed_accounts.len() < old(
                        self,
                    )@.destructed_accounts.len() {
                        FatalHostError::DestructedAccountsShrunk
                    } else {
                        FatalHostError::DestructedAccountPresent
                    })
                },
            },
    {
        if other.destructed_accounts.len() < self.destructed_accounts.len() {
            return Err(FatalHostError::DestructedAccountsShrunk);
        }
        let n = other.destructed_accounts.len();
        let mut i: usize = 0;
        while i < n
            invariant
                i <= n,
                n == other.destructed_accounts.len(),
                other@.wf(),
                forall|p: int|
                    0 <= p < i ==> !other@.has_acct(#[trigger] other@.destructed_accounts[p]),
            decreases n - i,
        {
            if let Some(_) = other.find_account(&other.destructed_accounts[i]) {
                proof {
                    assert(other@.has_acct(other@.destructed_accounts[i as int]));
                    assert(!merge_ok(old(self)@, other@));
                    assert(other@.destructed_accounts.len() == other.destructed_accounts@.len());
                    assert(old(self)@.destructed_accounts.len()
                        == old(self).destructed_accounts@.len());
                }
                return Err(FatalHostError::DestructedAccountPresent);
            }
            i += 1;
        }
        self.update(other);
        Ok(())
    }
}

/// Whether the account's storage holds no duplicate keys.
fn storage_keys_unique(acc: &AccountData) -> (r: bool)
    ensures
        r == (forall|p: int, q: int|
            0 <= p < q < acc@.storage.len() ==> acc@.storage[p].0 != acc@.storage[q].0),
{
    let m = acc.storage.len();
    let mut p: usize = 0;
    while p < m
        invariant
            p <= m,
            m == acc.storage.len(),
            forall|p2: int, q2: int|
                0 <= p2 < q2 < m && p2 < p ==> acc@.storage[p2].0 != acc@.storage[q2].0,
        decreases m - p,
    {
        let mut q: usize = p + 1;
        while q < m
            invariant
                p < q <= m,
                m == acc.storage.len(),
                forall|q2: int| p < q2 < q ==> acc@.storage[p as int].0 != acc@.storage[q2].0,
            decreases m - q,
        {
            if acc.storage[p].0 == acc.storage[q].0 {
                proof {
                    assert(acc@.storage[p as int].0 == acc@.storage[q as int].0);
                }
                return false;
            }
            q += 1;
        }
        p += 1;
    }
    true
}

impl TestHostContext {
    /// Whether the context is well-formed: no duplicate account
    /// addresses, and no duplicate storage keys within any account.
    /// Contexts built through the operations here always are; one
    /// rebuilt from a persisted snapshot can be checked before use.
    pub fn check_well_formed(&self) -> (r: bool)
        ensures
            r == self@.wf(),
    {
        let n = self.accounts.len();
        let mut i: usize = 0;
        while i < n
            invariant
                i <= n,
                n == self.accounts.len(),
                forall|i2: int, j2: int|
                    0 <= i2 < j2 < n && i2 < i ==> self@.accounts[i2].address
                        != self@.accounts[j2].address,
            decreases n - i,
        {
            let mut j: usize = i + 1;
            while j < n
                invariant
                    i < j <= n,
                    n == self.accounts.len(),
                    forall|j2: int|
                        i < j2 < j ==> self@.accounts[i as int].address
                            != self@.accounts[j2].address,
                decreases n - j,
            {
                if self.accounts[i].address == self.accounts[j].address {
                    proof {
                        assert(self@.accounts[i as int].address
                            == self@.accounts[j as int].address);
                        assert(!self@.wf());
                    }
                    return false;
                }
                j += 1;
            }
            i += 1;
        }
        let mut k: usize = 0;
        while k < n
            invariant
                k <= n,
                n == self.accounts.len(),
                forall|i2: int, j2: int|
                    0 <= i2 < j2 < n ==> self@.accounts[i2].address != self@.accounts[j2].address,
                forall|k2: int| 0 <= k2 < k ==> (#[trigger] self@.accounts[k2]).wf(),
            decreases n - k,
        {
            if !storage_keys_unique(&self.accounts[k]) {
                proof {
                    assert(!(self@.accounts[k as int]).wf());
                    assert(!self@.wf());
                }
                return false;
            }
            k += 1;
        }
        true
    }
}

/// Host-side contract violations: fatal desynchronization between the
/// interpreter and the host, kept apart from the interpreter's own
/// status codes because no safe continuation exists once one occurs.
#[derive(Clone, Copy, PartialEq, Eq, Structural, Debug)]
pub enum FatalHostError {
    /// A merge source whose destructed-address list is shorter than the
    /// target's.
    DestructedAccountsShrunk,
    /// A merge source that still holds an account it lists as
    /// destructed.
    DestructedAccountPresent,
    /// A call into an address for which no account exists.
    MissingAccount,
    /// A call into an account that holds no code.
    MissingCode,
}

/// A deep copy of an accounts vector, equal to it in the model.
fn clone_accounts(v: &Vec<AccountData>) -> (r: Vec<AccountData>)
    ensures
        r@.map_values(|a: AccountData| a@) == v@.map_values(|a: AccountData| a@),
{
    let mut r: Vec<AccountData> = Vec::new();
    let n = v.len();
    let mut i: usize = 0;
    while i < n
        invariant
            i <= n,
            n == v@.len(),
            r@.len() == i,
            forall|j: int| 0 <= j < i ==> (#[trigger] r@[j])@ == v@[j]@,
        decreases n - i,
    {
        r.push(v[i].duplicate());
        i += 1;
    }
    proof {
        assert(r@.map_values(|a: AccountData| a@) =~= v@.map_values(|a: AccountData| a@));
    }
    r
}

/// A copy of an address vector holding the same addresses.
fn clone_addresses(v: &Vec<Address>) -> (r: Vec<Address>)
    ensures
        r@ == v@,
{
    let mut r: Vec<Address> = Vec::new();
    let n = v.len();
    let mut i: usize = 0;
    while i < n
        invariant
            i <= n,
            n == v@.len(),
            r@ =~= v@.subrange(0, i as int),
        decreases n - i,
    {
        r.push(v[i]);
        i += 1;
    }
    proof {
        assert(r@ =~= v@);
    }
    r
}

} // verus!
