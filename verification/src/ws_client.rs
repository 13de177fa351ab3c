//! The client side of a WebSocket JSON-RPC connection: the bookkeeping of
//! requests in flight, what is done with the server's messages, and the
//! address connected to.

pub mod helpers;
pub mod manager;
pub mod transport;
