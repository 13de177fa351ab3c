//! Version two of the successful JSON-RPC response object.

use crate::types::v2::params::{Id, TwoPointZero};
use vstd::prelude::*;

verus! {

/// JSON-RPC successful response object.
#[derive(Debug, Clone)]
pub struct JsonRpcResponse<T> {
    /// JSON-RPC version.
    pub jsonrpc: TwoPointZero,
    /// Result.
    pub result: T,
    /// Request ID
    pub id: Id,
}

/// JSON-RPC successful response object whose request ID is a number.
#[derive(Debug)]
pub struct JsonRpcResponseObject<T> {
    /// JSON-RPC version.
    pub jsonrpc: TwoPointZero,
    /// Result.
    pub result: T,
    /// Request ID
    pub id: u64,
}

} // verus!
