//! Version two of the JSON-RPC error objects.

use crate::json::{encode_json_string, json_string};
use crate::text::{push_i32, push_str, signed_decimal};
use crate::types::v2::params::{id_json, Id, TwoPointZero};
use vstd::prelude::*;

verus! {

/// Parse error code.
pub const PARSE_ERROR_CODE: i32 = -32700;
/// Oversized request error code.
pub const OVERSIZED_REQUEST_CODE: i32 = -32701;
/// Oversized response error code.
pub const OVERSIZED_RESPONSE_CODE: i32 = -32702;
/// Internal error code.
pub const INTERNAL_ERROR_CODE: i32 = -32603;
/// Invalid params error code.
pub const INVALID_PARAMS_CODE: i32 = -32602;
/// Invalid request error code.
pub const INVALID_REQUEST_CODE: i32 = -32600;
/// Method not found error code.
pub const METHOD_NOT_FOUND_CODE: i32 = -32601;
/// Server is busy error code.
pub const SERVER_IS_BUSY_CODE: i32 = -32604;
/// Custom server error when a call failed.
pub const CALL_EXECUTION_FAILED_CODE: i32 = -32000;
/// Unknown error.
pub const UNKNOWN_ERROR_CODE: i32 = -32001;
/// Invalid subscription error code.
pub const INVALID_SUBSCRIPTION_CODE: i32 = -32002;

/// Parse error message
pub const PARSE_ERROR_MSG: &'static str = "Parse error";
/// Oversized request message
pub const OVERSIZED_REQUEST_MSG: &'static str = "Request is too big";
/// Oversized response message
pub const OVERSIZED_RESPONSE_MSG: &'static str = "Response is too big";
/// Internal error message.
pub const INTERNAL_ERROR_MSG: &'static str = "Internal error";
/// Invalid params error message.
pub const INVALID_PARAMS_MSG: &'static str = "Invalid params";
/// Invalid request error message.
pub const INVALID_REQUEST_MSG: &'static str = "Invalid request";
/// Method not found error message.
pub const METHOD_NOT_FOUND_MSG: &'static str = "Method not found";
/// Server is busy error message.
pub const SERVER_IS_BUSY_MSG: &'static str = "Server is busy, try again later";
/// Reserved for implementation-defined server-errors.
pub const SERVER_ERROR_MSG: &'static str = "Server error";

/// JSON-RPC error code.
#[derive(Debug, PartialEq, Eq, Copy, Clone, Structural)]
pub enum ErrorCode {
    /// Invalid JSON was received by the server.
    ParseError,
    /// The request was too big.
    OversizedRequest,
    /// The JSON sent is not a valid Request object.
    InvalidRequest,
    /// The method does not exist / is not available.
    MethodNotFound,
    /// Server is busy / resources are at capacity.
    ServerIsBusy,
    /// Invalid method parameter(s).
    InvalidParams,
    /// Internal JSON-RPC error.
    InternalError,
    /// Reserved for implementation-defined server-errors.
    ServerError(i32),
}

impl ErrorCode {
    /// The integer value of an error code.
    pub open spec fn spec_code(self) -> i32 {
        match self {
            ErrorCode::ParseError => PARSE_ERROR_CODE,
            ErrorCode::OversizedRequest => OVERSIZED_REQUEST_CODE,
            ErrorCode::InvalidRequest => INVALID_REQUEST_CODE,
            ErrorCode::MethodNotFound => METHOD_NOT_FOUND_CODE,
            ErrorCode::ServerIsBusy => SERVER_IS_BUSY_CODE,
            ErrorCode::InvalidParams => INVALID_PARAMS_CODE,
            ErrorCode::InternalError => INTERNAL_ERROR_CODE,
            ErrorCode::ServerError(code) => code,
        }
    }

    /// The standard message of an error code.
    pub open spec fn spec_message(self) -> Seq<char> {
        match self {
            ErrorCode::ParseError => "Parse error"@,
            ErrorCode::OversizedRequest => "Request is too big"@,
            ErrorCode::InvalidRequest => "Invalid request"@,
            ErrorCode::MethodNotFound => "Method not found"@,
            ErrorCode::ServerIsBusy => "Server is busy, try again later"@,
            ErrorCode::InvalidParams => "Invalid params"@,
            ErrorCode::InternalError => "Internal error"@,
            ErrorCode::ServerError(_) => "Server error"@,
        }
    }

    /// The error code that an integer value denotes.
    pub open spec fn spec_from_code(code: i32) -> ErrorCode {
        if code == PARSE_ERROR_CODE {
            ErrorCode::ParseError
        } else if code == OVERSIZED_REQUEST_CODE {
            ErrorCode::OversizedRequest
        } else if code == INVALID_REQUEST_CODE {
            ErrorCode::InvalidRequest
        } else if code == METHOD_NOT_FOUND_CODE {
            ErrorCode::MethodNotFound
        } else if code == INVALID_PARAMS_CODE {
            ErrorCode::InvalidParams
        } else if code == INTERNAL_ERROR_CODE {
            ErrorCode::InternalError
        } else {
            ErrorCode::ServerError(code)
        }
    }

    /// Returns integer code value.
    pub fn code(&self) -> (res: i32)
        ensures
            res == self.spec_code(),
    {
        match *self {
            ErrorCode::ParseError => PARSE_ERROR_CODE,
            ErrorCode::OversizedRequest => OVERSIZED_REQUEST_CODE,
            ErrorCode::InvalidRequest => INVALID_REQUEST_CODE,
            ErrorCode::MethodNotFound => METHOD_NOT_FOUND_CODE,
            ErrorCode::ServerIsBusy => SERVER_IS_BUSY_CODE,
            ErrorCode::InvalidParams => INVALID_PARAMS_CODE,
            ErrorCode::InternalError => INTERNAL_ERROR_CODE,
            ErrorCode::ServerError(code) => code,
        }
    }

    /// Returns the message for the given error code.
    pub fn message(&self) -> (res: &'static str)
        ensures
            res@ == self.spec_message(),
    {
        match self {
            ErrorCode::ParseError => "Parse error",
            ErrorCode::OversizedRequest => "Request is too big",
            ErrorCode::InvalidRequest => "Invalid request",
            ErrorCode::MethodNotFound => "Method not found",
            ErrorCode::ServerIsBusy => "Server is busy, try again later",
            ErrorCode::InvalidParams => "Invalid params",
            ErrorCode::InternalError => "Internal error",
            ErrorCode::ServerError(_) => "Server error",
        }
    }
}

impl From<i32> for ErrorCode {
    fn from(code: i32) -> (res: Self) {
        if code == PARSE_ERROR_CODE {
            ErrorCode::ParseError
        } else if code == OVERSIZED_REQUEST_CODE {
            ErrorCode::OversizedRequest
        } else if code == INVALID_REQUEST_CODE {
            ErrorCode::InvalidRequest
        } else if code == METHOD_NOT_FOUND_CODE {
            ErrorCode::MethodNotFound
        } else if code == INVALID_PARAMS_CODE {
            ErrorCode::InvalidParams
        } else if code == INTERNAL_ERROR_CODE {
            ErrorCode::InternalError
        } else {
            ErrorCode::ServerError(code)
        }
    }
}

impl vstd::std_specs::convert::FromSpecImpl<i32> for ErrorCode {
    open spec fn obeys_from_spec() -> bool {
        true
    }

    open spec fn from_spec(code: i32) -> ErrorCode {
        ErrorCode::spec_from_code(code)
    }
}


/// JSON-RPC error object: the code, the message and, optionally, the JSON
/// text of further data.
#[derive(Debug, Clone, PartialEq, Eq)]
pub struct ErrorObject {
    /// Code
    pub code: ErrorCode,
    /// Message
    pub message: String,
    /// Optional data, as raw JSON text
    pub data: Option<String>,
}

impl ErrorObject {
    /// Create a new `ErrorObject` with the code's standard message and optional data.
    pub fn new(code: ErrorCode, data: Option<String>) -> (res: ErrorObject)
        ensures
            res.code == code,
            res.message@ == code.spec_message(),
            res.data == data,
    {
        ErrorObject { code, message: code.message().to_owned(), data }
    }

    /// The error object of a code: its standard message and no data.
    pub fn from_code(code: ErrorCode) -> (res: ErrorObject)
        ensures
            res.code == code,
            res.message@ == code.spec_message(),
            res.data is None,
    {
        ErrorObject::new(code, None)
    }
}

/// [Failed JSON-RPC response object](https://www.jsonrpc.org/specification#response_object).
#[derive(Debug, PartialEq)]
pub struct RpcError {
    /// JSON-RPC version.
    pub jsonrpc: TwoPointZero,
    /// Error.
    pub error: ErrorObject,
    /// Request ID
    pub id: Id,
}

impl RpcError {
    /// Create a new `RpcError`.
    pub fn new(error: ErrorObject, id: Id) -> (res: Self)
        ensures
            res.error == error,
            res.id == id,
    {
        RpcError { jsonrpc: TwoPointZero, error, id }
    }
}

/// Create a invalid subscription ID error.
pub fn invalid_subscription_err(data: Option<String>) -> (res: ErrorObject)
    ensures
        res.code == ErrorCode::ServerError(INVALID_SUBSCRIPTION_CODE),
        res.message@ == SERVER_ERROR_MSG@,
        res.data == data,
{
    ErrorObject::new(ErrorCode::ServerError(INVALID_SUBSCRIPTION_CODE), data)
}

/// The JSON text of a failed response: the version, then the error object
/// (code, message and, where there is one, the raw data), then the request ID.
pub open spec fn rpc_error_json(e: RpcError) -> Seq<char> {
    "{\"jsonrpc\":\"2.0\",\"error\":{\"code\":"@ + signed_decimal(e.error.code.spec_code() as int)
        + ",\"message\":"@ + json_string(e.error.message@) + match e.error.data {
        Some(d) => ",\"data\":"@ + d@,
        None => Seq::empty(),
    } + "},\"id\":"@ + id_json(e.id) + "}"@
}

impl RpcError {
    /// The JSON text of the failed response.
    pub fn to_string(&self) -> (res: String)
        ensures
            res@ == rpc_error_json(*self),
    {
        let mut out = String::new();
        push_str(&mut out, "{\"jsonrpc\":\"2.0\",\"error\":{\"code\":");
        push_i32(&mut out, self.error.code.code());
        push_str(&mut out, ",\"message\":");
        let message = encode_json_string(self.error.message.as_str());
        push_str(&mut out, message.as_str());
        match &self.error.data {
            Some(d) => {
                push_str(&mut out, ",\"data\":");
                push_str(&mut out, d.as_str());
            },
            None => {},
        }
        push_str(&mut out, "},\"id\":");
        self.id.push_json(&mut out);
        push_str(&mut out, "}");
        assert(out@ =~= rpc_error_json(*self));
        out
    }
}

} // verus!
