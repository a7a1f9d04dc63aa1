//! The persisted snapshot of a host context: the same structure with
//! every binary field rendered as hexadecimal text. The view of a
//! snapshot is the state it denotes, so `to_snapshot` ensures the
//! snapshot denotes exactly this state, and `to_context` reads any
//! well-formed snapshot back — together the round trip, with only the
//! document framing left to the boundary layer.

use vstd::prelude::*;
use crate::types::{Address, Bytes32, JsonBytes};
use crate::model::{AccountModel, LogModel, StateModel, ValueModel};
use crate::state::{AccountData, LogEntry, TestHostContext, Value};
use crate::hexutil::{
    bytes_of_hex_text, hex_decode_bytes, is_hex_text, lemma_hex_roundtrip,
};

verus! {

/// One storage slot in snapshot form: the stored word as hexadecimal
/// text, and the modify count as it is.
pub struct SnapshotValue {
    pub data: Vec<u8>,
    pub modify_time: usize,
}

impl View for SnapshotValue {
    type V = ValueModel;

    open spec fn view(&self) -> ValueModel {
        ValueModel {
            data: bytes_of_hex_text(self.data@),
            modify_time: self.modify_time as nat,
        }
    }
}

impl SnapshotValue {
    /// Well-formedness of the textual fields: the data is the text of a
    /// 32-byte word.
    pub open spec fn hex_wf(self) -> bool {
        is_hex_text(self.data@) && self.data@.len() == 64
    }
}

/// One log entry in snapshot form.
pub struct SnapshotLog {
    pub data: Vec<u8>,
    pub topics: Vec<Vec<u8>>,
}

impl View for SnapshotLog {
    type V = LogModel;

    open spec fn view(&self) -> LogModel {
        LogModel {
            data: bytes_of_hex_text(self.data@),
            topics: self.topics@.map_values(|t: Vec<u8>| bytes_of_hex_text(t@)),
        }
    }
}

impl SnapshotLog {
    /// Well-formedness of the textual fields: the payload is
    /// hexadecimal text and every topic the text of a 32-byte word.
    pub open spec fn hex_wf(self) -> bool {
        &&& is_hex_text(self.data@)
        &&& forall|i: int|
            0 <= i < self.topics@.len() ==> is_hex_text((#[trigger] self.topics@[i])@)
                && self.topics@[i]@.len() == 64
    }
}

/// One account in snapshot form.
pub struct SnapshotAccount {
    pub nonce: u64,
    pub address: Vec<u8>,
    pub code: Option<Vec<u8>>,
    pub storage: Vec<(Vec<u8>, SnapshotValue)>,
    pub logs: Vec<SnapshotLog>,
}

impl View for SnapshotAccount {
    type V = AccountModel;

    open spec fn view(&self) -> AccountModel {
        AccountModel {
            nonce: self.nonce,
            address: bytes_of_hex_text(self.address@),
            code: match self.code {
                Some(c) => Some(bytes_of_hex_text(c@)),
                None => None,
            },
            storage: self.storage@.map_values(
                |e: (Vec<u8>, SnapshotValue)| (bytes_of_hex_text(e.0@), e.1@),
            ),
            logs: self.logs@.map_values(|l: SnapshotLog| l@),
        }
    }
}

impl SnapshotAccount {
    /// Well-formedness of the textual fields: the address is the text
    /// of 20 bytes, the code hexadecimal text, every storage key the
    /// text of a 32-byte word with a well-formed value, and every log
    /// well-formed.
    pub open spec fn hex_wf(self) -> bool {
        &&& is_hex_text(self.address@) && self.address@.len() == 40
        &&& match self.code {
            Some(c) => is_hex_text(c@),
            None => true,
        }
        &&& forall|i: int|
            0 <= i < self.storage@.len() ==> is_hex_text((#[trigger] self.storage@[i]).0@)
                && self.storage@[i].0@.len() == 64 && self.storage@[i].1.hex_wf()
        &&& forall|i: int| 0 <= i < self.logs@.len() ==> (#[trigger] self.logs@[i]).hex_wf()
    }
}

/// A whole host context in snapshot form.
pub struct SnapshotState {
    pub depth: u32,
    pub current_account: Vec<u8>,
    pub accounts: Vec<SnapshotAccount>,
    pub destructed_accounts: Vec<Vec<u8>>,
}

impl View for SnapshotState {
    type V = StateModel;

    open spec fn view(&self) -> StateModel {
        StateModel {
            depth: self.depth,
            current_account: bytes_of_hex_text(self.current_account@),
            accounts: self.accounts@.map_values(|a: SnapshotAccount| a@),
            destructed_accounts: self.destructed_accounts@.map_values(
                |a: Vec<u8>| bytes_of_hex_text(a@),
            ),
        }
    }
}

impl SnapshotState {
    /// Well-formedness of the textual fields, through the whole
    /// structure.
    pub open spec fn hex_wf(self) -> bool {
        &&& is_hex_text(self.current_account@) && self.current_account@.len() == 40
        &&& forall|i: int| 0 <= i < self.accounts@.len() ==> (#[trigger] self.accounts@[i]).hex_wf()
        &&& forall|i: int|
            0 <= i < self.destructed_accounts@.len() ==> is_hex_text(
                (#[trigger] self.destructed_accounts@[i])@,
            ) && self.destructed_accounts@[i]@.len() == 40
    }
}

impl Value {
    /// The snapshot form of the entry; it denotes this entry exactly.
    pub fn to_snapshot(&self) -> (r: SnapshotValue)
        ensures
            r@ == self@,
            r.hex_wf(),
    {
        let r = SnapshotValue { data: self.data.to_hex(), modify_time: self.modify_time };
        proof {
            lemma_hex_roundtrip(self.data@);
        }
        r
    }
}

impl LogEntry {
    /// The snapshot form of the entry; it denotes this entry exactly.
    pub fn to_snapshot(&self) -> (r: SnapshotLog)
        ensures
            r@ == self@,
            r.hex_wf(),
    {
        let mut topics: Vec<Vec<u8>> = Vec::new();
        let n = self.topics.len();
        let mut i: usize = 0;
        while i < n
            invariant
                i <= n,
                n == self.topics@.len(),
                topics@.len() == i,
                forall|j: int|
                    0 <= j < i ==> (#[trigger] topics@[j])@ == crate::hexutil::hex_text_of(
                        self.topics@[j]@,
                    ),
            decreases n - i,
        {
            topics.push(self.topics[i].to_hex());
            i += 1;
        }
        let r = SnapshotLog { data: self.data.to_hex(), topics };
        proof {
            lemma_hex_roundtrip(self.data@);
            assert forall|j: int| 0 <= j < n implies bytes_of_hex_text(
                (#[trigger] r.topics@[j])@,
            ) == self.topics@[j]@ && is_hex_text(r.topics@[j]@) && r.topics@[j]@.len() == 64 by {
                lemma_hex_roundtrip(self.topics@[j]@);
            }
            assert(r@.topics =~= self@.topics);
        }
        r
    }
}

impl AccountData {
    /// The snapshot form of the account; it denotes this account
    /// exactly.
    pub fn to_snapshot(&self) -> (r: SnapshotAccount)
        ensures
            r@ == self@,
            r.hex_wf(),
    {
        let code = match &self.code {
            Some(c) => {
                proof {
                    lemma_hex_roundtrip(c@);
                }
                Some(c.to_hex())
            },
            None => None,
        };
        let mut storage: Vec<(Vec<u8>, SnapshotValue)> = Vec::new();
        let n = self.storage.len();
        let mut i: usize = 0;
        while i < n
            invariant
                i <= n,
                n == self.storage@.len(),
                storage@.len() == i,
                forall|j: int|
                    0 <= j < i ==> (#[trigger] storage@[j]).0@ == crate::hexutil::hex_text_of(
                        self.storage@[j].0@,
                    ) && storage@[j].1@ == self.storage@[j].1@ && storage@[j].1.hex_wf(),
            decreases n - i,
        {
            let entry = &self.storage[i];
            storage.push((entry.0.to_hex(), entry.1.to_snapshot()));
            i += 1;
        }
        let mut logs: Vec<SnapshotLog> = Vec::new();
        let m = self.logs.len();
        let mut k: usize = 0;
        while k < m
            invariant
                k <= m,
                m == self.logs@.len(),
                logs@.len() == k,
                forall|j: int|
                    0 <= j < k ==> (#[trigger] logs@[j])@ == self.logs@[j]@ && logs@[j].hex_wf(),
            decreases m - k,
        {
            logs.push(self.logs[k].to_snapshot());
            k += 1;
        }
        let r = SnapshotAccount {
            nonce: self.nonce,
            address: self.address.to_hex(),
            code,
            storage,
            logs,
        };
        proof {
            lemma_hex_roundtrip(self.address@);
            assert forall|j: int| 0 <= j < n implies bytes_of_hex_text(
                (#[trigger] r.storage@[j]).0@,
            ) == self.storage@[j].0@ && is_hex_text(r.storage@[j].0@) && r.storage@[j].0@.len()
                == 64 by {
                lemma_hex_roundtrip(self.storage@[j].0@);
            }
            assert(r@.storage =~= self@.storage);
            assert(r@.logs =~= self@.logs);
            assert(r@ =~= self@);
        }
        r
    }
}

impl TestHostContext {
    /// The snapshot form of the whole context; it denotes this context
    /// exactly, and is well-formed, so `SnapshotState::to_context`
    /// reads it back to an equal state.
    pub fn to_snapshot(&self) -> (r: SnapshotState)
        ensures
            r@ == self@,
            r.hex_wf(),
    {
        let mut accounts: Vec<SnapshotAccount> = Vec::new();
        let n = self.accounts.len();
        let mut i: usize = 0;
        while i < n
            invariant
                i <= n,
                n == self.accounts@.len(),
                accounts@.len() == i,
                forall|j: int|
                    0 <= j < i ==> (#[trigger] accounts@[j])@ == self.accounts@[j]@
                        && accounts@[j].hex_wf(),
            decreases n - i,
        {
            accounts.push(self.accounts[i].to_snapshot());
            i += 1;
        }
        let mut destructed: Vec<Vec<u8>> = Vec::new();
        let m = self.destructed_accounts.len();
        let mut k: usize = 0;
        while k < m
            invariant
                k <= m,
                m == self.destructed_accounts@.len(),
                destructed@.len() == k,
                forall|j: int|
                    0 <= j < k ==> (#[trigger] destructed@[j])@ == crate::hexutil::hex_text_of(
                        self.destructed_accounts@[j]@,
                    ),
            decreases m - k,
        {
            destructed.push(self.destructed_accounts[k].to_hex());
            k += 1;
        }
        let r = SnapshotState {
            depth: self.depth,
            current_account: self.current_account.to_hex(),
            accounts,
            destructed_accounts: destructed,
        };
        proof {
            lemma_hex_roundtrip(self.current_account@);
            assert forall|j: int| 0 <= j < m implies bytes_of_hex_text(
                (#[trigger] r.destructed_accounts@[j])@,
            ) == self.destructed_accounts@[j]@ && is_hex_text(r.destructed_accounts@[j]@)
                && r.destructed_accounts@[j]@.len() == 40 by {
                lemma_hex_roundtrip(self.destructed_accounts@[j]@);
            }
            assert(r@.accounts =~= self@.accounts);
            assert(r@.destructed_accounts =~= self@.destructed_accounts);
            assert(r@ =~= self@);
        }
        r
    }
}

/// Reads the text of a 32-byte word.
fn word_from_hex(text: &Vec<u8>) -> (r: Option<Bytes32>)
    ensures
        r is Some <==> (is_hex_text(text@) && text@.len() == 64),
        r matches Some(w) ==> w@ == bytes_of_hex_text(text@),
{
    match hex_decode_bytes(text.as_slice()) {
        Some(v) => {
            if v.len() == 32 {
                let mut arr = [0u8; 32];
                let mut i: usize = 0;
                while i < 32
                    invariant
                        i <= 32,
                        v@.len() == 32,
                        forall|j: int| 0 <= j < i ==> arr@[j] == v@[j],
                    decreases 32 - i,
                {
                    arr[i] = v[i];
                    i += 1;
                }
                proof {
                    assert(arr@ =~= v@);
                }
                Some(Bytes32(arr))
            } else {
                None
            }
        },
        None => None,
    }
}

/// Reads the text of a 20-byte address.
fn address_from_hex(text: &Vec<u8>) -> (r: Option<Address>)
    ensures
        r is Some <==> (is_hex_text(text@) && text@.len() == 40),
        r matches Some(a) ==> a@ == bytes_of_hex_text(text@),
{
    match hex_decode_bytes(text.as_slice()) {
        Some(v) => {
            if v.len() == 20 {
                let mut arr = [0u8; 20];
                let mut i: usize = 0;
                while i < 20
                    invariant
                        i <= 20,
                        v@.len() == 20,
                        forall|j: int| 0 <= j < i ==> arr@[j] == v@[j],
                    decreases 20 - i,
                {
                    arr[i] = v[i];
                    i += 1;
                }
                proof {
                    assert(arr@ =~= v@);
                }
                Some(Address(arr))
            } else {
                None
            }
        },
        None => None,
    }
}

impl SnapshotValue {
    /// Reads the entry back; exactly the well-formed snapshots succeed.
    pub fn to_value(&self) -> (r: Option<Value>)
        ensures
            r is Some <==> self.hex_wf(),
            r matches Some(v) ==> v@ == self@,
    {
        match word_from_hex(&self.data) {
            Some(w) => Some(Value { data: w, modify_time: self.modify_time }),
            None => None,
        }
    }
}

impl SnapshotLog {
    /// Reads the entry back; exactly the well-formed snapshots succeed.
    pub fn to_log(&self) -> (r: Option<LogEntry>)
        ensures
            r is Some <==> self.hex_wf(),
            r matches Some(l) ==> l@ == self@,
    {
        let data = match hex_decode_bytes(self.data.as_slice()) {
            Some(v) => JsonBytes(v),
            None => {
                return None;
            },
        };
        let mut topics: Vec<Bytes32> = Vec::new();
        let n = self.topics.len();
        let mut i: usize = 0;
        while i < n
            invariant
                i <= n,
                n == self.topics@.len(),
                topics@.len() == i,
                forall|j: int|
                    0 <= j < i ==> is_hex_text((#[trigger] self.topics@[j])@)
                        && self.topics@[j]@.len() == 64,
                forall|j: int|
                    0 <= j < i ==> (#[trigger] topics@[j])@ == bytes_of_hex_text(
                        self.topics@[j]@,
                    ),
            decreases n - i,
        {
            match word_from_hex(&self.topics[i]) {
                Some(w) => topics.push(w),
                None => {
                    return None;
                },
            }
            i += 1;
        }
        let r = LogEntry { data, topics };
        proof {
            assert(r@.topics =~= self@.topics);
        }
        Some(r)
    }
}

impl SnapshotAccount {
    /// Reads the account back; exactly the well-formed snapshots
    /// succeed.
    pub fn to_account(&self) -> (r: Option<AccountData>)
        ensures
            r is Some <==> self.hex_wf(),
            r matches Some(a) ==> a@ == self@,
    {
        let address = match address_from_hex(&self.address) {
            Some(a) => a,
            None => {
                return None;
            },
        };
        let code = match &self.code {
            Some(c) => match hex_decode_bytes(c.as_slice()) {
                Some(v) => Some(JsonBytes(v)),
                None => {
                    return None;
                },
            },
            None => None,
        };
        let mut storage: Vec<(Bytes32, Value)> = Vec::new();
        let n = self.storage.len();
        let mut i: usize = 0;
        while i < n
            invariant
                i <= n,
                n == self.storage@.len(),
                storage@.len() == i,
                forall|j: int|
                    0 <= j < i ==> is_hex_text((#[trigger] self.storage@[j]).0@)
                        && self.storage@[j].0@.len() == 64 && self.storage@[j].1.hex_wf(),
                forall|j: int|
                    0 <= j < i ==> (#[trigger] storage@[j]).0@ == bytes_of_hex_text(
                        self.storage@[j].0@,
                    ) && storage@[j].1@ == self.storage@[j].1@,
            decreases n - i,
        {
            let key = match word_from_hex(&self.storage[i].0) {
                Some(k) => k,
                None => {
                    return None;
                },
            };
            let value = match self.storage[i].1.to_value() {
                Some(v) => v,
                None => {
                    return None;
                },
            };
            storage.push((key, value));
            i += 1;
        }
        let mut logs: Vec<LogEntry> = Vec::new();
        let m = self.logs.len();
        let mut k: usize = 0;
        while k < m
            invariant
                k <= m,
                m == self.logs@.len(),
                logs@.len() == k,
                forall|j: int| 0 <= j < k ==> (#[trigger] self.logs@[j]).hex_wf(),
                forall|j: int| 0 <= j < k ==> (#[trigger] logs@[j])@ == self.logs@[j]@,
            decreases m - k,
        {
            match self.logs[k].to_log() {
                Some(l) => logs.push(l),
                None => {
                    return None;
                },
            }
            k += 1;
        }
        let r = AccountData { nonce: self.nonce, address, code, storage, logs };
        proof {
            assert(r@.storage =~= self@.storage);
            assert(r@.logs =~= self@.logs);
            assert(r@ =~= self@);
        }
        Some(r)
    }
}

impl SnapshotState {
    /// Reads the whole context back: exactly the well-formed snapshots
    /// succeed, and the result is the state the snapshot denotes.
    pub fn to_context(&self) -> (r: Result<TestHostContext, String>)
        ensures
            r is Ok <==> self.hex_wf(),
            r matches Ok(ctx) ==> ctx@ == self@,
    {
        let current_account = match address_from_hex(&self.current_account) {
            Some(a) => a,
            None => {
                return Err("snapshot holds a malformed current account".to_owned());
            },
        };
        let mut accounts: Vec<AccountData> = Vec::new();
        let n = self.accounts.len();
        let mut i: usize = 0;
        while i < n
            invariant
                i <= n,
                n == self.accounts@.len(),
                accounts@.len() == i,
                forall|j: int| 0 <= j < i ==> (#[trigger] self.accounts@[j]).hex_wf(),
                forall|j: int| 0 <= j < i ==> (#[trigger] accounts@[j])@ == self.accounts@[j]@,
            decreases n - i,
        {
            match self.accounts[i].to_account() {
                Some(a) => accounts.push(a),
                None => {
                    return Err("snapshot holds a malformed account".to_owned());
                },
            }
            i += 1;
        }
        let mut destructed: Vec<Address> = Vec::new();
        let m = self.destructed_accounts.len();
        let mut k: usize = 0;
        while k < m
            invariant
                k <= m,
                m == self.destructed_accounts@.len(),
                destructed@.len() == k,
                forall|j: int|
                    0 <= j < k ==> is_hex_text((#[trigger] self.destructed_accounts@[j])@)
                        && self.destructed_accounts@[j]@.len() == 40,
                forall|j: int|
                    0 <= j < k ==> (#[trigger] destructed@[j])@ == bytes_of_hex_text(
                        self.destructed_accounts@[j]@,
                    ),
            decreases m - k,
        {
            match address_from_hex(&self.destructed_accounts[k]) {
                Some(a) => destructed.push(a),
                None => {
                    return Err("snapshot holds a malformed destructed address".to_owned());
                },
            }
            k += 1;
        }
        let r = TestHostContext {
            depth: self.depth,
            current_account,
            accounts,
            destructed_accounts: destructed,
        };
        proof {
            assert(r@.accounts =~= self@.accounts);
            assert(r@.destructed_accounts =~= self@.destructed_accounts);
            assert(r@ =~= self@);
        }
        Ok(r)
    }
}

} // verus!
