//! The JSON-RPC 2.0 objects of the first server interface, whose request IDs
//! and results are kept as raw JSON text, and the text they are sent as.

use crate::channels::unbounded_send;
use crate::json::{encode_json_string, json_string};
use futures_channel::mpsc;
use crate::text::{decimal, push_decimal, push_i32, push_str, signed_decimal};
use vstd::prelude::*;

verus! {

/// Connection ID, used for stateful protocols such as WebSockets.
pub type ConnectionId = usize;

/// JSON-RPC v2 marker type.
#[derive(Debug, Default, Clone, Copy, PartialEq, Eq, Structural)]
pub struct TwoPointZero;

impl TwoPointZero {
    /// The marker that a version string denotes: only `"2.0"` is accepted.
    pub fn from_version(s: &str) -> (res: Option<TwoPointZero>)
        ensures
            res is Some <==> s@ == "2.0"@,
    {
        if crate::text::str_eq(s, "2.0") {
            Some(TwoPointZero)
        } else {
            None
        }
    }

    /// The version string of the marker, `"2.0"`.
    pub fn as_str(&self) -> (res: &'static str)
        ensures
            res@ == "2.0"@,
    {
        "2.0"
    }
}

/// Errors a method of this interface fails with.
#[derive(Debug, Clone, Copy, PartialEq, Eq, Structural)]
pub enum RpcError {
    /// Unknown error.
    Unknown,
    /// The parameters could not be read.
    InvalidParams,
}

impl RpcError {
    /// The message of the error.
    pub fn to_string(&self) -> (res: String)
        ensures
            *self == RpcError::Unknown ==> res@ == "unknown rpc error"@,
            *self == RpcError::InvalidParams ==> res@ == "invalid params"@,
    {
        match self {
            RpcError::Unknown => "unknown rpc error".to_owned(),
            RpcError::InvalidParams => "invalid params".to_owned(),
        }
    }
}

/// The raw JSON text of the parameters of a request, if it has any.
#[derive(Clone, Copy, Debug)]
pub struct RpcParams<'a>(Option<&'a str>);

impl<'a> RpcParams<'a> {
    /// Create params
    pub fn new(raw: Option<&'a str>) -> (res: Self)
        ensures
            res.raw() == raw,
    {
        Self(raw)
    }

    /// The raw JSON text of the parameters.
    pub closed spec fn raw(&self) -> Option<&'a str> {
        self.0
    }

    /// The raw JSON text of the parameters, to be deserialized; without
    /// parameters there is nothing to read and the parameters are invalid.
    pub fn text(&self) -> (res: Result<&'a str, RpcError>)
        ensures
            self.raw() matches Some(t) ==> res == Ok::<&'a str, RpcError>(t),
            self.raw() is None ==> res == Err::<&'a str, RpcError>(RpcError::InvalidParams),
    {
        match self.0 {
            Some(t) => Ok(t),
            None => Err(RpcError::InvalidParams),
        }
    }
}

/// A method of this interface: a callable that takes the parameters and
/// returns a result or an error.
pub trait RpcMethod<R>: Fn(RpcParams) -> Result<R, RpcError> + Send + Sync + 'static {}

impl<R, T> RpcMethod<R> for T where T: Fn(RpcParams) -> Result<R, RpcError> + Send + Sync + 'static {}

/// The JSON text of a raw request ID: the text itself, or `null` when there is none.
pub open spec fn raw_id_json(id: Option<Seq<char>>) -> Seq<char> {
    match id {
        Some(raw) => raw,
        None => "null"@,
    }
}

fn push_raw_id(out: &mut String, id: Option<&str>)
    ensures
        final(out)@ == old(out)@ + raw_id_json(match id {
            Some(raw) => Some(raw@),
            None => None,
        }),
{
    match id {
        Some(raw) => push_str(out, raw),
        None => push_str(out, "null"),
    }
}

/// The code and message of a failed call.
#[derive(Debug)]
pub struct JsonRpcErrorParams<'a> {
    /// Code.
    pub code: i32,
    /// Message.
    pub message: &'a str,
}

/// A failed response: the error and the raw ID of the request.
#[derive(Debug)]
pub struct JsonRpcError<'a> {
    /// JSON-RPC version.
    pub jsonrpc: TwoPointZero,
    /// Error.
    pub error: JsonRpcErrorParams<'a>,
    /// Raw request ID.
    pub id: Option<&'a str>,
}

/// The JSON text of a failed response.
pub open spec fn error_response_json(code: i32, message: Seq<char>, id: Option<Seq<char>>) -> Seq<char> {
    "{\"jsonrpc\":\"2.0\",\"error\":{\"code\":"@ + signed_decimal(code as int) + ",\"message\":"@ + json_string(message)
        + "},\"id\":"@ + raw_id_json(id) + "}"@
}

impl<'a> JsonRpcError<'a> {
    /// The JSON text of the failed response.
    pub fn to_json(&self) -> (res: String)
        ensures
            res@ == error_response_json(self.error.code, self.error.message@, match self.id {
                Some(raw) => Some(raw@),
                None => None,
            }),
    {
        let mut out = String::new();
        push_str(&mut out, "{\"jsonrpc\":\"2.0\",\"error\":{\"code\":");
        push_i32(&mut out, self.error.code);
        push_str(&mut out, ",\"message\":");
        let message = encode_json_string(self.error.message);
        push_str(&mut out, message.as_str());
        push_str(&mut out, "},\"id\":");
        push_raw_id(&mut out, self.id);
        push_str(&mut out, "}");
        out
    }
}

/// A successful response: the raw JSON of the result and the raw ID of the request.
#[derive(Debug)]
pub struct JsonRpcResponse<'a> {
    /// JSON-RPC version.
    pub jsonrpc: TwoPointZero,
    /// Raw result.
    pub result: &'a str,
    /// Raw request ID.
    pub id: Option<&'a str>,
}

/// The JSON text of a successful response.
pub open spec fn success_response_json(result: Seq<char>, id: Option<Seq<char>>) -> Seq<char> {
    "{\"jsonrpc\":\"2.0\",\"result\":"@ + result + ",\"id\":"@ + raw_id_json(id) + "}"@
}

impl<'a> JsonRpcResponse<'a> {
    /// The JSON text of the successful response.
    pub fn to_json(&self) -> (res: String)
        ensures
            res@ == success_response_json(self.result@, match self.id {
                Some(raw) => Some(raw@),
                None => None,
            }),
    {
        let mut out = String::new();
        push_str(&mut out, "{\"jsonrpc\":\"2.0\",\"result\":");
        push_str(&mut out, self.result);
        push_str(&mut out, ",\"id\":");
        push_raw_id(&mut out, self.id);
        push_str(&mut out, "}");
        out
    }
}

/// What a subscription notification carries: the subscription and the raw new value.
#[derive(Debug)]
pub struct JsonRpcNotificationParams<'a> {
    /// Subscription ID.
    pub subscription: u64,
    /// Raw result.
    pub result: &'a str,
}

/// A subscription notification.
#[derive(Debug)]
pub struct JsonRpcNotification<'a> {
    /// JSON-RPC version.
    pub jsonrpc: TwoPointZero,
    /// Name of the method.
    pub method: &'a str,
    /// Parameters.
    pub params: JsonRpcNotificationParams<'a>,
}

/// The JSON text of a subscription notification.
pub open spec fn notification_json(method: Seq<char>, subscription: u64, result: Seq<char>) -> Seq<char> {
    "{\"jsonrpc\":\"2.0\",\"method\":"@ + json_string(method) + ",\"params\":{\"subscription\":"@ + decimal(
        subscription as nat,
    ) + ",\"result\":"@ + result + "}}"@
}

impl<'a> JsonRpcNotification<'a> {
    /// The JSON text of the notification.
    pub fn to_json(&self) -> (res: String)
        ensures
            res@ == notification_json(self.method@, self.params.subscription, self.params.result@),
    {
        let mut out = String::new();
        push_str(&mut out, "{\"jsonrpc\":\"2.0\",\"method\":");
        let method = encode_json_string(self.method);
        push_str(&mut out, method.as_str());
        push_str(&mut out, ",\"params\":{\"subscription\":");
        push_decimal(&mut out, self.params.subscription);
        push_str(&mut out, ",\"result\":");
        push_str(&mut out, self.params.result);
        push_str(&mut out, "}}");
        out
    }
}

/// The JSON text of the answer to a request whose result could not be
/// serialized: internal error.
pub fn internal_error_json(id: Option<&str>) -> (res: String)
    ensures
        res@ == error_response_json(-32603i32, "Internal error"@, match id {
            Some(raw) => Some(raw@),
            None => None,
        }),
{
    let err = JsonRpcError {
        jsonrpc: TwoPointZero,
        error: JsonRpcErrorParams { code: -32603, message: "Internal error" },
        id,
    };
    err.to_json()
}

/// Sends a successful answer, whose result is the JSON text `result`, to the
/// client. Returns whether it was queued.
pub fn send_response(id: Option<&str>, tx: &mpsc::UnboundedSender<String>, result: &str) -> (queued: bool) {
    let json = JsonRpcResponse { jsonrpc: TwoPointZero, result, id }.to_json();
    unbounded_send(tx, json)
}

/// Sends an error answer to the client. Returns whether it was queued.
pub fn send_error(id: Option<&str>, tx: &mpsc::UnboundedSender<String>, code: i32, message: &str) -> (queued: bool) {
    let json = JsonRpcError { jsonrpc: TwoPointZero, error: JsonRpcErrorParams { code, message }, id }.to_json();
    unbounded_send(tx, json)
}

} // verus!
