//! The JSON-RPC 2.0 request and response objects that a raw server handles,
//! with parameters and results kept as raw JSON text.

pub mod wrapped;

use crate::types::error::ErrorObject;
use crate::types::params::Id;
use vstd::prelude::*;

verus! {

/// A call of a method that expects an answer.
#[derive(Debug, Clone)]
pub struct MethodCall {
    /// Name of the method.
    pub method: String,
    /// Raw JSON text of the parameters, if any.
    pub params: Option<String>,
    /// Request ID.
    pub id: Id,
}

/// A call of a method that expects no answer.
#[derive(Debug, Clone)]
pub struct Notification {
    /// Name of the method.
    pub method: String,
    /// Raw JSON text of the parameters, if any.
    pub params: Option<String>,
}

/// One call of a request.
#[derive(Debug, Clone)]
pub enum Call {
    /// A method call.
    MethodCall(MethodCall),
    /// A notification.
    Notification(Notification),
    /// An object that is no valid call; answered with an invalid-request error.
    Invalid {
        /// Request ID, as far as it could be read.
        id: Id,
    },
}

/// A request: one call, or a batch of calls.
#[derive(Debug, Clone)]
pub enum Request {
    /// A single call.
    Single(Call),
    /// A batch of calls.
    Batch(Vec<Call>),
}

/// The answer to one call.
#[derive(Debug, Clone)]
pub enum Output {
    /// The call succeeded.
    Success {
        /// Raw JSON text of the result.
        result: String,
        /// Request ID.
        id: Id,
    },
    /// The call failed.
    Failure {
        /// The error.
        error: ErrorObject,
        /// Request ID.
        id: Id,
    },
}

/// The answer to a request: one output, or a batch of outputs.
#[derive(Debug, Clone)]
pub enum Response {
    /// The answer to a single call.
    Single(Output),
    /// The answers to a batch, in the order of its calls.
    Batch(Vec<Output>),
}

} // verus!
