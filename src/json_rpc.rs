//! JSON-RPC 2.0 message types exchanged with the solver process.
use vstd::prelude::*;
use vstd::string::*;

use crate::json_value::{empty_json_object, empty_object, json_u64, u64_value};

verus! {

/// The protocol version every message carries.
pub open spec fn protocol_version() -> Seq<char> {
    seq!['2', '.', '0']
}

/// The code of the JSON-RPC "internal error".
pub const INTERNAL_ERROR_CODE: i32 = -32603;

pub fn protocol_version_text() -> (r: String)
    ensures
        r@ == protocol_version(),
{
    proof {
        reveal_strlit("2.0");
    }
    String::from_str("2.0")
}

/// A JSON-RPC 2.0 request.
#[derive(Clone, Debug)]
pub struct JsonRpcRequest {
    pub jsonrpc: String,
    pub method: String,
    pub params: serde_json::Value,
    pub id: serde_json::Value,
}

/// A JSON-RPC 2.0 response: exactly one of `result` and `error` is present in
/// a well-formed one.
#[derive(Clone, Debug)]
pub struct JsonRpcResponse {
    pub jsonrpc: String,
    pub result: Option<serde_json::Value>,
    pub error: Option<JsonRpcError>,
    pub id: serde_json::Value,
}

/// A JSON-RPC 2.0 error object.
#[derive(Clone, Debug)]
pub struct JsonRpcError {
    pub code: i32,
    pub message: String,
    pub data: Option<serde_json::Value>,
}

impl JsonRpcRequest {
    /// The fixed liveness probe: method `ping`, an empty parameter object and
    /// the given id (a timestamp in milliseconds).
    pub fn ping(id_ms: u64) -> (r: JsonRpcRequest)
        ensures
            r.jsonrpc@ == protocol_version(),
            r.method@ == seq!['p', 'i', 'n', 'g'],
            r.params == empty_json_object(()),
            r.id == json_u64(id_ms),
    {
        proof {
            reveal_strlit("ping");
        }
        JsonRpcRequest {
            jsonrpc: protocol_version_text(),
            method: String::from_str("ping"),
            params: empty_object(),
            id: u64_value(id_ms),
        }
    }
}

impl JsonRpcResponse {
    /// Whether exactly one of `result` and `error` is present.
    pub open spec fn well_formed(&self) -> bool {
        self.result is Some != self.error is Some
    }

    pub fn is_well_formed(&self) -> (r: bool)
        ensures
            r == self.well_formed(),
    {
        self.result.is_some() != self.error.is_some()
    }

    /// A response that carries `result`.
    pub fn success(id: serde_json::Value, result: serde_json::Value) -> (r: JsonRpcResponse)
        ensures
            r.jsonrpc@ == protocol_version(),
            r.result == Some(result),
            r.error is None,
            r.id == id,
            r.well_formed(),
    {
        JsonRpcResponse { jsonrpc: protocol_version_text(), result: Some(result), error: None, id }
    }

    /// A response that carries an error object with `code` and `message` and
    /// no data.
    pub fn error(id: serde_json::Value, code: i32, message: String) -> (r: JsonRpcResponse)
        ensures
            r.jsonrpc@ == protocol_version(),
            r.result is None,
            r.error matches Some(e) && e.code == code && e.message == message && e.data is None,
            r.id == id,
            r.well_formed(),
    {
        JsonRpcResponse {
            jsonrpc: protocol_version_text(),
            result: None,
            error: Some(JsonRpcError { code, message, data: None }),
            id,
        }
    }

    /// An error response with the internal-error code.
    pub fn internal_error(id: serde_json::Value, message: String) -> (r: JsonRpcResponse)
        ensures
            r.jsonrpc@ == protocol_version(),
            r.result is None,
            r.error matches Some(e) && e.code == INTERNAL_ERROR_CODE && e.message == message && e.data is None,
            r.id == id,
    {
        Self::error(id, INTERNAL_ERROR_CODE, message)
    }
}

} // verus!
