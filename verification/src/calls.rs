//! The recursive call engine: callee-address derivation, the host-side
//! preparation of a nested call (child state plus the code to run), and
//! the commit/merge step once the interpreter returns.
//!
//! The interpreter invocation itself happens between `prepare_call` and
//! `finish_call`, outside the library: the boundary layer hands the
//! prepared child state to the interpreter and brings its result back.

use vstd::prelude::*;
use crate::types::{Address, Bytes32, clone_byte_vec};
use crate::message::{CallKind, ExecutionMessage, ExecutionResult, StatusCode};
use crate::model::{AccountModel, lemma_account_state_same_accounts, merge_ok, or_fresh};
use crate::state::{FatalHostError, TestHostContext};

verus! {

/// Byte `i` of the little-endian encoding of `n`, as the address
/// derivation mixes it in.
pub open spec fn le_u64_byte(n: u64, i: int) -> u8 {
    (n >> ((8 * i) as u64)) as u8
}

/// The callee address of a plain creation, derived deterministically
/// from the sender address and the sender's nonce: each byte mixes the
/// sender byte with a little-endian byte of the nonce.
pub open spec fn create_address_of(sender: Seq<u8>, nonce: u64) -> Seq<u8> {
    Seq::new(20, |i: int| sender[i] ^ le_u64_byte(nonce, i % 8))
}

/// A 20-byte digest of the init code used by the salted creation
/// variant: byte `i` accumulates (by exclusive or) every code byte at a
/// position congruent to `i` modulo 20.
pub open spec fn code_digest(code: Seq<u8>) -> Seq<u8>
    decreases code.len(),
{
    if code.len() == 0 {
        Seq::new(20, |i: int| 0u8)
    } else {
        let prev = code_digest(code.drop_last());
        let j = ((code.len() - 1) as int) % 20;
        prev.update(j, prev[j] ^ code.last())
    }
}

/// The callee address of a salted creation, derived deterministically
/// from the sender address, the salt and the digest of the init code.
pub open spec fn create2_address_of(sender: Seq<u8>, salt: Seq<u8>, code: Seq<u8>) -> Seq<u8> {
    Seq::new(20, |i: int| sender[i] ^ salt[i] ^ code_digest(code)[i])
}

/// The callee address a message resolves to: derived for the two
/// creation variants, and the stated destination unchanged otherwise.
pub open spec fn derived_destination(
    kind: CallKind,
    destination: Seq<u8>,
    sender: Seq<u8>,
    nonce: u64,
    salt: Seq<u8>,
    input: Seq<u8>,
) -> Seq<u8> {
    match kind {
        CallKind::Create => create_address_of(sender, nonce),
        CallKind::Create2 => create2_address_of(sender, salt, input),
        _ => destination,
    }
}

/// Derives the callee address of a plain creation from the sender and
/// its nonce.
pub fn derive_create_address(sender: &Address, nonce: u64) -> (r: Address)
    ensures
        r@ == create_address_of(sender@, nonce),
{
    let mut bytes = [0u8; 20];
    let mut i: usize = 0;
    while i < 20
        invariant
            i <= 20,
            forall|j: int| 0 <= j < i ==> bytes@[j] == (sender@[j] ^ le_u64_byte(nonce, j % 8)),
        decreases 20 - i,
    {
        let nb = #[verifier::truncate] ((nonce >> (8 * ((i % 8) as u64))) as u8);
        bytes[i] = sender.0[i] ^ nb;
        i += 1;
    }
    let r = Address(bytes);
    proof {
        assert(r@ =~= create_address_of(sender@, nonce));
    }
    r
}

/// Step of the code digest: appending one byte folds it into the digest
/// position its index selects.
proof fn lemma_code_digest_step(code: Seq<u8>, j: int)
    requires
        0 <= j < code.len(),
    ensures
        code_digest(code.subrange(0, j + 1)) == code_digest(code.subrange(0, j)).update(
            j % 20,
            code_digest(code.subrange(0, j))[j % 20] ^ code[j],
        ),
{
    let s = code.subrange(0, j + 1);
    assert(s.drop_last() =~= code.subrange(0, j));
    assert(s.last() == code[j]);
}

/// Computes the 20-byte digest of a code buffer.
fn compute_code_digest(code: &[u8]) -> (r: [u8; 20])
    ensures
        r@ == code_digest(code@),
{
    let mut digest = [0u8; 20];
    proof {
        assert(digest@ =~= code_digest(code@.subrange(0, 0)));
    }
    let n = code.len();
    let mut j: usize = 0;
    while j < n
        invariant
            j <= n,
            n == code@.len(),
            digest@ == code_digest(code@.subrange(0, j as int)),
        decreases n - j,
    {
        let p = j % 20;
        digest[p] = digest[p] ^ code[j];
        proof {
            lemma_code_digest_step(code@, j as int);
            assert(digest@ =~= code_digest(code@.subrange(0, j as int + 1)));
        }
        j += 1;
    }
    proof {
        assert(code@.subrange(0, n as int) =~= code@);
    }
    digest
}

/// Derives the callee address of a salted creation from the sender, the
/// salt and the init code.
pub fn derive_create2_address(sender: &Address, salt: &Bytes32, code: &[u8]) -> (r: Address)
    ensures
        r@ == create2_address_of(sender@, salt@, code@),
{
    let digest = compute_code_digest(code);
    let mut bytes = [0u8; 20];
    let mut i: usize = 0;
    while i < 20
        invariant
            i <= 20,
            digest@ == code_digest(code@),
            forall|j: int| 0 <= j < i ==> bytes@[j] == (sender@[j] ^ salt@[j] ^ digest@[j]),
        decreases 20 - i,
    {
        bytes[i] = sender.0[i] ^ salt.0[i] ^ digest[i];
        i += 1;
    }
    let r = Address(bytes);
    proof {
        assert(r@ =~= create2_address_of(sender@, salt@, code@));
    }
    r
}

/// Everything the boundary layer needs to run a nested call: the child
/// host state, the code to execute, and the message with its
/// destination resolved to the derived callee address.
#[derive(Debug)]
pub struct CallPreparation {
    pub child: TestHostContext,
    pub code: Vec<u8>,
    pub message: ExecutionMessage,
}

impl TestHostContext {
    /// First half of the recursive `call` handler: looks up (or lazily
    /// creates) the sender's account to read its nonce, derives the
    /// callee address, resolves the code to execute (the message's
    /// input for creations, else the callee's stored code), and clones
    /// this state into a child at depth `message.depth + 1` rooted at
    /// the callee.
    ///
    /// Success is owed exactly when the message is a creation or the
    /// callee account exists with stored code; the two fatal host
    /// errors report a missing account and missing code. In either
    /// outcome this state is only changed by ensuring the sender's
    /// account exists, which happens before the callee is resolved.
    pub fn prepare_call(&mut self, message: &ExecutionMessage) -> (r: Result<
        CallPreparation,
        FatalHostError,
    >)
        requires
            old(self)@.wf(),
            0 <= message.depth < i32::MAX,
        ensures
            final(self)@.wf(),
            final(self)@.account_state(message.sender@) == Some(
                or_fresh(old(self)@.account_state(message.sender@), message.sender@),
            ),
            forall|b: Seq<u8>|
                b != message.sender@ ==> #[trigger] final(self)@.account_state(b) == old(self)@.account_state(b),
            final(self)@.depth == old(self)@.depth,
            final(self)@.current_account == old(self)@.current_account,
            final(self)@.destructed_accounts == old(self)@.destructed_accounts,
            ({
                let nonce = or_fresh(
                    old(self)@.account_state(message.sender@),
                    message.sender@,
                ).nonce;
                let dest = derived_destination(
                    message.kind,
                    message.destination@,
                    message.sender@,
                    nonce,
                    message.create2_salt@,
                    message.input_data@,
                );
                &&& (r is Ok <==> (message.is_create() || (final(self)@.has_acct(dest) && final(self)@.acct(dest).code is Some)))
                &&& match r {
                    Ok(prep) => {
                        &&& prep.child@.wf()
                        &&& prep.child@.depth == message.depth + 1
                        &&& prep.child@.current_account == dest
                        &&& prep.child@.accounts == final(self)@.accounts
                        &&& prep.child@.destructed_accounts == final(self)@.destructed_accounts
                        &&& prep.message.kind == message.kind
                        &&& prep.message.flags == message.flags
                        &&& prep.message.depth == message.depth
                        &&& prep.message.gas == message.gas
                        &&& prep.message.destination@ == dest
                        &&& prep.message.sender@ == message.sender@
                        &&& prep.message.input_data@ == message.input_data@
                        &&& prep.message.value@ == message.value@
                        &&& prep.message.create2_salt@ == message.create2_salt@
                        &&& prep.code@ == (if message.is_create() {
                            message.input_data@
                        } else {
                            final(self)@.acct(dest).code->0
                        })
                    },
                    Err(e) => {
                        &&& !message.is_create()
                        &&& (e == FatalHostError::MissingAccount <==> !final(self)@.has_acct(dest))
                        &&& (e == FatalHostError::MissingCode <==> (final(self)@.has_acct(dest)
                            && final(self)@.acct(dest).code is None))
                        &&& (e == FatalHostError::MissingAccount || e
                            == FatalHostError::MissingCode)
                    },
                }
            }),
    {
        let sender = message.sender;
        let i = self.ensure_account(&sender);
        let nonce = self.accounts[i].nonce;
        proof {
            assert(self@.accounts[i as int]
                == or_fresh(old(self)@.account_state(sender@), sender@));
        }
        let destination = match message.kind {
            CallKind::Create => derive_create_address(&sender, nonce),
            CallKind::Create2 => derive_create2_address(
                &sender,
                &message.create2_salt,
                message.input_data.as_slice(),
            ),
            _ => message.destination,
        };
        let code: Vec<u8> = if message.is_create() {
            clone_byte_vec(&message.input_data)
        } else {
            match self.find_account(&destination) {
                None => {
                    return Err(FatalHostError::MissingAccount);
                },
                Some(j) => {
                    match &self.accounts[j].code {
                        None => {
                            return Err(FatalHostError::MissingCode);
                        },
                        Some(c) => clone_byte_vec(&c.0),
                    }
                },
            }
        };
        let mut child = self.duplicate();
        child.depth = (message.depth + 1) as u32;
        child.current_account = destination;
        let new_message = ExecutionMessage {
            kind: message.kind,
            flags: message.flags,
            depth: message.depth,
            gas: message.gas,
            destination,
            sender,
            input_data: clone_byte_vec(&message.input_data),
            value: message.value,
            create2_salt: message.create2_salt,
        };
        Ok(CallPreparation { child, code, message: new_message })
    }

    /// Second half of the recursive `call` handler: when the
    /// interpreter reported success on a creation, records the returned
    /// output as the callee's code in the child state; stamps the
    /// result with the callee address; and merges the child back into
    /// this state, checking the merge soundness conditions.
    pub fn finish_call(
        &mut self,
        child: TestHostContext,
        destination: Address,
        is_create: bool,
        result: ExecutionResult,
    ) -> (r: Result<ExecutionResult, FatalHostError>)
        requires
            old(self)@.wf(),
            child@.wf(),
        ensures
            ({
                let committed = result.status_code == StatusCode::Success && is_create;
                let merge_allowed = child@.destructed_accounts.len() >= old(self)@.destructed_accounts.len() && (forall|i: int|
                    0 <= i < child@.destructed_accounts.len()
                        ==> !(child@.has_acct(#[trigger] child@.destructed_accounts[i]) || (
                        committed
                            && child@.destructed_accounts[i] == destination@)));
                &&& (r is Ok <==> merge_allowed)
                &&& match r {
                    Ok(res) => {
                        &&& res.status_code == result.status_code
                        &&& res.gas_left == result.gas_left
                        &&& res.output_data@ == result.output_data@
                        &&& res.create_address@ == destination@
                        &&& final(self)@.wf()
                        &&& final(self)@.depth == old(self)@.depth
                        &&& final(self)@.current_account == old(self)@.current_account
                        &&& final(self)@.destructed_accounts == child@.destructed_accounts
                        &&& (committed ==> final(self)@.account_state(destination@) == Some(
                            AccountModel {
                                code: Some(result.output_data@),
                                ..or_fresh(child@.account_state(destination@), destination@)
                            },
                        ))
                        &&& (committed ==> forall|b: Seq<u8>|
                            b != destination@ ==> #[trigger] final(self)@.account_state(b)
                                == child@.account_state(b))
                        &&& (!committed ==> final(self)@.accounts == child@.accounts)
                    },
                    Err(e) => {
                        &&& *final(self) == *old(self)
                        &&& e == (if child@.destructed_accounts.len() < old(self)@.destructed_accounts.len() {
                            FatalHostError::DestructedAccountsShrunk
                        } else {
                            FatalHostError::DestructedAccountPresent
                        })
                    },
                }
            }),
    {
        let mut child = child;
        let mut result = result;
        let ghost child0 = child@;
        let ghost committed = result.status_code == StatusCode::Success && is_create;
        if result.status_code == StatusCode::Success && is_create {
            let code = clone_byte_vec(&result.output_data);
            child.update_code(destination, code);
        }
        let ghost child1 = child@;
        proof {
            assert(child1.destructed_accounts == child0.destructed_accounts);
            assert forall|b: Seq<u8>| #[trigger] child1.has_acct(b) == (child0.has_acct(b) || (
            committed && b == destination@)) by {
                if committed {
                    if b == destination@ {
                        assert(child1.account_state(b) is Some);
                    } else {
                        assert(child1.account_state(b) == child0.account_state(b));
                    }
                }
            }
            assert(merge_ok(old(self)@, child1) == (child0.destructed_accounts.len() >= old(self)@.destructed_accounts.len() && (forall|i: int|
                0 <= i < child0.destructed_accounts.len()
                    ==> !(child0.has_acct(#[trigger] child0.destructed_accounts[i]) || (committed
                    && child0.destructed_accounts[i] == destination@))))) by {
                if merge_ok(old(self)@, child1) {
                    assert forall|i: int| 0 <= i < child0.destructed_accounts.len() implies !(
                    child0.has_acct(#[trigger] child0.destructed_accounts[i]) || (committed
                        && child0.destructed_accounts[i] == destination@)) by {
                        assert(!child1.has_acct(child1.destructed_accounts[i]));
                    }
                } else if child0.destructed_accounts.len() >= old(self)@.destructed_accounts.len() && (forall|i: int|
                    0 <= i < child0.destructed_accounts.len()
                        ==> !(child0.has_acct(#[trigger] child0.destructed_accounts[i]) || (
                        committed && child0.destructed_accounts[i] == destination@))) {
                    assert forall|i: int| 0 <= i < child1.destructed_accounts.len() implies
                        !child1.has_acct(#[trigger] child1.destructed_accounts[i]) by {
                        assert(!(child0.has_acct(child0.destructed_accounts[i]) || (committed
                            && child0.destructed_accounts[i] == destination@)));
                    }
                }
            }
        }
        result.create_address = destination;
        match self.try_update(&child) {
            Ok(()) => {
                proof {
                    assert(self@.accounts == child1.accounts);
                    if committed {
                        lemma_account_state_same_accounts(self@, child1, destination@);
                        assert forall|b: Seq<u8>| b != destination@ implies #[trigger] self@.account_state(b)
                            == child0.account_state(b) by {
                            lemma_account_state_same_accounts(self@, child1, b);
                            assert(child1.account_state(b) == child0.account_state(b));
                        }
                    }
                }
                Ok(result)
            },
            Err(e) => Err(e),
        }
    }
}

} // verus!
