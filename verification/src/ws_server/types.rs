//! The JSON-RPC objects the WebSocket server sends, which it shares with the
//! first server interface.

pub use crate::types::jsonrpc_v2::{
    ConnectionId, JsonRpcError, JsonRpcErrorParams, JsonRpcNotification, JsonRpcNotificationParams,
    JsonRpcResponse, RpcError, RpcMethod, RpcParams, TwoPointZero,
};
