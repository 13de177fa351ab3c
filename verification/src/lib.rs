//! JSON-RPC 2.0 building blocks: error codes and error objects, request
//! parameters and identifiers, response assembly, the client-side request
//! bookkeeping, resource limiting for servers and the access-control
//! configuration of the HTTP/WebSocket transports.

pub mod assoc;
pub mod channels;
pub mod json;
pub mod text;
pub mod types;
pub mod utils;
pub mod ws_server;
pub mod ws_client;
