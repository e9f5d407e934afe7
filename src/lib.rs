//! Verified core of a bridge between request/response callers and a long-lived
//! solver process that speaks line-delimited JSON-RPC over its standard streams.
use vstd::prelude::*;

pub mod framer;
pub mod handlers;
pub mod json_rpc;
pub mod json_value;
pub mod lean_repl;
pub mod paths;
pub mod storage;

pub use json_rpc::{JsonRpcError, JsonRpcRequest, JsonRpcResponse};
pub use storage::Storage;

verus! {

} // verus!
