//! JSON-RPC specific types.

pub mod client;
pub mod error;
pub mod jsonrpc;
pub mod jsonrpc_v2;
pub mod params;
pub mod request;
pub mod response;
pub mod v2;
