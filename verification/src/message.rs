//! Call messages, execution results and the transaction context, modeled
//! with plain owned values. These mirror the wire shapes the interpreter
//! boundary uses; the raw-ABI marshaling itself lives outside the
//! library.

use vstd::prelude::*;
use crate::types::{Address, Bytes32, Uint256};

verus! {

/// The call variant of a message.
#[derive(Clone, Copy, PartialEq, Eq, Structural, Debug)]
pub enum CallKind {
    Call,
    DelegateCall,
    CallCode,
    Create,
    Create2,
}

impl CallKind {
    /// Whether this kind creates a new contract.
    #[verifier::allow_in_spec]
    pub fn is_create(&self) -> (r: bool)
        returns
            (*self == CallKind::Create || *self == CallKind::Create2),
    {
        match self {
            CallKind::Create => true,
            CallKind::Create2 => true,
            _ => false,
        }
    }
}

/// Status reported by the interpreter for one execution.
#[derive(Clone, Copy, PartialEq, Eq, Structural, Debug)]
pub enum StatusCode {
    Success,
    Failure,
    Revert,
    OutOfGas,
    InvalidInstruction,
}

/// Status reported to the interpreter after each storage write, so that
/// it can account for gas refunds and costs.
#[derive(Clone, Copy, PartialEq, Eq, Structural, Debug)]
pub enum StorageStatus {
    Added,
    Modified,
    ModifiedAgain,
    Unchanged,
}

/// Flag bit marking a static (read-only) call.
pub const STATIC_CALL_FLAG: u32 = 1;

/// One call or create message handed to the interpreter. The input data
/// is owned here; the boundary layer borrows it for the duration of one
/// interpreter invocation.
#[derive(Debug)]
pub struct ExecutionMessage {
    pub kind: CallKind,
    pub flags: u32,
    pub depth: i32,
    pub gas: i64,
    pub destination: Address,
    pub sender: Address,
    pub input_data: Vec<u8>,
    pub value: Uint256,
    pub create2_salt: Bytes32,
}

impl ExecutionMessage {
    /// Whether the message creates a new contract.
    #[verifier::allow_in_spec]
    pub fn is_create(&self) -> (r: bool)
        returns
            (self.kind == CallKind::Create || self.kind == CallKind::Create2),
    {
        self.kind.is_create()
    }
}

/// The structured result of one interpreter invocation.
#[derive(Debug)]
pub struct ExecutionResult {
    pub status_code: StatusCode,
    pub gas_left: i64,
    pub output_data: Vec<u8>,
    pub create_address: Address,
}

/// Transaction metadata, cached once per top-level execution.
#[derive(Debug)]
pub struct TxContext {
    pub tx_gas_price: Uint256,
    pub tx_origin: Address,
    pub block_coinbase: Address,
    pub block_number: i64,
    pub block_timestamp: i64,
    pub block_gas_limit: i64,
    pub block_difficulty: Uint256,
    pub chain_id: Uint256,
}

} // verus!
