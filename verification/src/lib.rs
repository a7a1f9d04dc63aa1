//! Host-side driver library for an external bytecode interpreter.
//!
//! The library models the host's view of blockchain state (accounts,
//! storage, logs), the ownership bridge that hands a host context across
//! the interpreter boundary, the recursive call/merge engine that
//! emulates nested contract calls, and the hexadecimal snapshot form in
//! which the state is persisted.

pub mod types;
pub mod message;
pub mod model;
pub mod state;
pub mod calls;
pub mod registry;
pub mod hexutil;
pub mod laws;
pub mod snapshot;
