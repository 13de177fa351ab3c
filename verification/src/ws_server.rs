//! The WebSocket JSON-RPC server: its settings, the decisions it takes on
//! connections, and the driving of connection futures.

pub mod dispatch;
pub mod future;
pub mod server;
pub mod types;
