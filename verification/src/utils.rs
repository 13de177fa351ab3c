//! Server-side utilities: resource limiting, method resources, the answers
//! servers send and access control.

pub mod access_control;
pub mod helpers;
pub mod middleware;
pub mod resource_limiting;
pub mod rpc_module;
pub mod subscribers;
