//! JSON-RPC error codes and error objects.

use crate::json::{encode_json_string, json_string};
use crate::text::{decimal, push_decimal, push_str};
use vstd::prelude::*;

verus! {

/// Parse error code.
pub const PARSE_ERROR_CODE: i32 = -32700;
/// Invalid request error code.
pub const INVALID_REQUEST_CODE: i32 = -32600;
/// Method not found error code.
pub const METHOD_NOT_FOUND_CODE: i32 = -32601;
/// Invalid params error code.
pub const INVALID_PARAMS_CODE: i32 = -32602;
/// Internal error code.
pub const INTERNAL_ERROR_CODE: i32 = -32603;
/// Custom server error when a call failed.
pub const CALL_EXECUTION_FAILED_CODE: i32 = -32000;
/// Unknown error.
pub const UNKNOWN_ERROR_CODE: i32 = -32001;
/// Batched requests are not supported by the server.
pub const BATCHES_NOT_SUPPORTED_CODE: i32 = -32005;
/// Subscription limit per connection was exceeded.
pub const TOO_MANY_SUBSCRIPTIONS_CODE: i32 = -32006;
/// Oversized request error code.
pub const OVERSIZED_REQUEST_CODE: i32 = -32007;
/// Oversized response error code.
pub const OVERSIZED_RESPONSE_CODE: i32 = -32008;
/// Server is busy error code.
pub const SERVER_IS_BUSY_CODE: i32 = -32009;

/// Parse error message.
pub const PARSE_ERROR_MSG: &'static str = "Parse error";
/// Oversized request message.
pub const OVERSIZED_REQUEST_MSG: &'static str = "Request is too big";
/// Oversized response message.
pub const OVERSIZED_RESPONSE_MSG: &'static str = "Response is too big";
/// Internal error message.
pub const INTERNAL_ERROR_MSG: &'static str = "Internal error";
/// Invalid params error message.
pub const INVALID_PARAMS_MSG: &'static str = "Invalid params";
/// Invalid request error message.
pub const INVALID_REQUEST_MSG: &'static str = "Invalid request";
/// Method not found error message.
pub const METHOD_NOT_FOUND_MSG: &'static str = "Method not found";
/// Server is busy error message.
pub const SERVER_IS_BUSY_MSG: &'static str = "Server is busy, try again later";
/// Reserved for implementation-defined server-errors.
pub const SERVER_ERROR_MSG: &'static str = "Server error";
/// Batched requests not supported error message.
pub const BATCHES_NOT_SUPPORTED_MSG: &'static str = "Batched requests are not supported by this server";
/// Subscription limit per connection was exceeded.
pub const TOO_MANY_SUBSCRIPTIONS_MSG: &'static str = "Too many subscriptions on the connection";

/// JSON-RPC error code.
#[derive(Debug, PartialEq, Eq, Copy, Clone, Structural)]
pub enum ErrorCode {
    /// Invalid JSON was received by the server.
    ParseError,
    /// The request was too big.
    OversizedRequest,
    /// The JSON sent is not a valid Request object.
    InvalidRequest,
    /// The method does not exist / is not available.
    MethodNotFound,
    /// Server is busy / resources are at capacity.
    ServerIsBusy,
    /// Invalid method parameter(s).
    InvalidParams,
    /// Internal JSON-RPC error.
    InternalError,
    /// Reserved for implementation-defined server-errors.
    ServerError(i32),
}

impl ErrorCode {
    /// The integer value of an error code.
    pub open spec fn spec_code(self) -> i32 {
        match self {
            ErrorCode::ParseError => PARSE_ERROR_CODE,
            ErrorCode::OversizedRequest => OVERSIZED_REQUEST_CODE,
            ErrorCode::InvalidRequest => INVALID_REQUEST_CODE,
            ErrorCode::MethodNotFound => METHOD_NOT_FOUND_CODE,
            ErrorCode::ServerIsBusy => SERVER_IS_BUSY_CODE,
            ErrorCode::InvalidParams => INVALID_PARAMS_CODE,
            ErrorCode::InternalError => INTERNAL_ERROR_CODE,
            ErrorCode::ServerError(code) => code,
        }
    }

    /// The standard message of an error code.
    pub open spec fn spec_message(self) -> Seq<char> {
        match self {
            ErrorCode::ParseError => "Parse error"@,
            ErrorCode::OversizedRequest => "Request is too big"@,
            ErrorCode::InvalidRequest => "Invalid request"@,
            ErrorCode::MethodNotFound => "Method not found"@,
            ErrorCode::ServerIsBusy => "Server is busy, try again later"@,
            ErrorCode::InvalidParams => "Invalid params"@,
            ErrorCode::InternalError => "Internal error"@,
            ErrorCode::ServerError(_) => "Server error"@,
        }
    }

    /// The error code that an integer value denotes.
    pub open spec fn spec_from_code(code: i32) -> ErrorCode {
        if code == PARSE_ERROR_CODE {
            ErrorCode::ParseError
        } else if code == OVERSIZED_REQUEST_CODE {
            ErrorCode::OversizedRequest
        } else if code == INVALID_REQUEST_CODE {
            ErrorCode::InvalidRequest
        } else if code == METHOD_NOT_FOUND_CODE {
            ErrorCode::MethodNotFound
        } else if code == INVALID_PARAMS_CODE {
            ErrorCode::InvalidParams
        } else if code == INTERNAL_ERROR_CODE {
            ErrorCode::InternalError
        } else {
            ErrorCode::ServerError(code)
        }
    }

    /// Returns integer code value.
    pub fn code(&self) -> (res: i32)
        ensures
            res == self.spec_code(),
    {
        match *self {
            ErrorCode::ParseError => PARSE_ERROR_CODE,
            ErrorCode::OversizedRequest => OVERSIZED_REQUEST_CODE,
            ErrorCode::InvalidRequest => INVALID_REQUEST_CODE,
            ErrorCode::MethodNotFound => METHOD_NOT_FOUND_CODE,
            ErrorCode::ServerIsBusy => SERVER_IS_BUSY_CODE,
            ErrorCode::InvalidParams => INVALID_PARAMS_CODE,
            ErrorCode::InternalError => INTERNAL_ERROR_CODE,
            ErrorCode::ServerError(code) => code,
        }
    }

    /// Returns the message for the given error code.
    pub fn message(&self) -> (res: &'static str)
        ensures
            res@ == self.spec_message(),
    {
        match self {
            ErrorCode::ParseError => "Parse error",
            ErrorCode::OversizedRequest => "Request is too big",
            ErrorCode::InvalidRequest => "Invalid request",
            ErrorCode::MethodNotFound => "Method not found",
            ErrorCode::ServerIsBusy => "Server is busy, try again later",
            ErrorCode::InvalidParams => "Invalid params",
            ErrorCode::InternalError => "Internal error",
            ErrorCode::ServerError(_) => "Server error",
        }
    }
}

impl From<i32> for ErrorCode {
    fn from(code: i32) -> (res: Self) {
        if code == PARSE_ERROR_CODE {
            ErrorCode::ParseError
        } else if code == OVERSIZED_REQUEST_CODE {
            ErrorCode::OversizedRequest
        } else if code == INVALID_REQUEST_CODE {
            ErrorCode::InvalidRequest
        } else if code == METHOD_NOT_FOUND_CODE {
            ErrorCode::MethodNotFound
        } else if code == INVALID_PARAMS_CODE {
            ErrorCode::InvalidParams
        } else if code == INTERNAL_ERROR_CODE {
            ErrorCode::InternalError
        } else {
            ErrorCode::ServerError(code)
        }
    }
}

impl vstd::std_specs::convert::FromSpecImpl<i32> for ErrorCode {
    open spec fn obeys_from_spec() -> bool {
        true
    }

    open spec fn from_spec(code: i32) -> ErrorCode {
        ErrorCode::spec_from_code(code)
    }
}

/// Errors of the library.
#[derive(Debug, PartialEq, Eq)]
pub enum Error {
    /// A resource with this label is registered already.
    ResourceNameAlreadyTaken(&'static str),
    /// No more resource kinds can be registered.
    MaxResourcesReached,
    /// Claiming the units would take this resource over its capacity.
    ResourceAtCapacity(&'static str),
    /// A method asks for a resource that is not registered: the resource, the method.
    ResourceNameNotFoundForMethod(&'static str, &'static str),
    /// The resources of a method were not initialized.
    UninitializedMethod(String),
    /// A method with this name is registered already.
    MethodAlreadyRegistered(String),
    /// The limit of concurrent requests was reached.
    MaxSlotsExceeded,
    /// The request ID is not known.
    InvalidRequestId,
    /// The server was stopped already.
    AlreadyStopped,
    /// An allow list may not be empty; the header it is for.
    EmptyAllowList(&'static str),
    /// The request was refused; why.
    Request(String),
    /// The server answered a subscription request with something that is not
    /// a subscription ID, or with one that is in use already.
    InvalidSubscriptionId,
    /// The subscribe and the unsubscribe method of a subscription have the same name.
    SubscriptionNameConflict(String),
    /// No method has this name.
    MethodNotFound(String),
}

/// Reading an integer as an error code and taking its value back gives the
/// integer unchanged.
pub proof fn lemma_code_of_from_code(code: i32)
    ensures
        ErrorCode::spec_from_code(code).spec_code() == code,
{
}

/// Every error code other than `ServerIsBusy`, and other than a
/// `ServerError` carrying one of the codes that name a standard variant, is
/// read back unchanged from its integer value.
pub proof fn lemma_from_code_of_code(c: ErrorCode)
    requires
        c != ErrorCode::ServerIsBusy,
        c matches ErrorCode::ServerError(n) ==> (n != PARSE_ERROR_CODE && n != OVERSIZED_REQUEST_CODE
            && n != INVALID_REQUEST_CODE && n != METHOD_NOT_FOUND_CODE && n != INVALID_PARAMS_CODE
            && n != INTERNAL_ERROR_CODE),
    ensures
        ErrorCode::spec_from_code(c.spec_code()) == c,
{
}

/// [Failed JSON-RPC response object](https://www.jsonrpc.org/specification#response_object):
/// the code, the message and, optionally, the JSON text of further data.
#[derive(Debug, Clone, PartialEq, Eq)]
pub struct ErrorObject {
    /// Code
    code: ErrorCode,
    /// Message
    message: String,
    /// Optional data, as raw JSON text
    data: Option<String>,
}

/// Owned variant of [`ErrorObject`].
pub type ErrorObjectOwned = ErrorObject;

impl ErrorObject {
    /// The error code.
    pub closed spec fn spec_code(&self) -> ErrorCode {
        self.code
    }

    /// The message.
    pub closed spec fn spec_message(&self) -> Seq<char> {
        self.message@
    }

    /// The JSON text of the data, if any.
    pub closed spec fn spec_data(&self) -> Option<Seq<char>> {
        match self.data {
            Some(d) => Some(d@),
            None => None,
        }
    }

    /// Return the error code
    pub fn code(&self) -> (res: i32)
        ensures
            res == self.spec_code().spec_code(),
    {
        self.code.code()
    }

    /// Return the message
    pub fn message(&self) -> (res: &str)
        ensures
            res@ == self.spec_message(),
    {
        self.message.as_str()
    }

    /// Return the data associated with this error, if any, as raw JSON text
    pub fn data(&self) -> (res: Option<&str>)
        ensures
            res is Some <==> self.spec_data() is Some,
            res matches Some(d) ==> d@ == self.spec_data()->0,
    {
        match &self.data {
            Some(d) => Some(d.as_str()),
            None => None,
        }
    }

    /// Create a new `ErrorObjectOwned` with optional data, given as raw JSON text.
    pub fn owned(code: i32, message: String, data: Option<String>) -> (res: ErrorObject)
        ensures
            res.spec_code() == ErrorCode::spec_from_code(code),
            res.spec_message() == message@,
            res.spec_data() == (match data {
                Some(d) => Some(d@),
                None => None::<Seq<char>>,
            }),
    {
        ErrorObject { code: ErrorCode::from(code), message, data }
    }

    /// Create a new [`ErrorObject`] with optional data, given as raw JSON text.
    pub fn borrowed(code: i32, message: &str, data: Option<&str>) -> (res: ErrorObject)
        ensures
            res.spec_code() == ErrorCode::spec_from_code(code),
            res.spec_message() == message@,
            res.spec_data() == (match data {
                Some(d) => Some(d@),
                None => None::<Seq<char>>,
            }),
    {
        let data = match data {
            Some(d) => Some(d.to_owned()),
            None => None,
        };
        ErrorObject { code: ErrorCode::from(code), message: message.to_owned(), data }
    }

    /// Take ownership of the parameters within, if we haven't already.
    pub fn into_owned(self) -> (res: ErrorObject)
        ensures
            res == self,
    {
        self
    }

    /// Borrow the current [`ErrorObject`].
    pub fn borrow(&self) -> (res: ErrorObject)
        ensures
            res.spec_code() == self.spec_code(),
            res.spec_message() == self.spec_message(),
            res.spec_data() == self.spec_data(),
    {
        let data = match &self.data {
            Some(d) => Some(d.clone()),
            None => None,
        };
        ErrorObject { code: self.code, message: self.message.clone(), data }
    }
}

impl ErrorObject {
    /// The error object of a code: its standard message and no data.
    pub fn from_code(code: ErrorCode) -> (res: Self)
        ensures
            res.spec_code() == code,
            res.spec_message() == code.spec_message(),
            res.spec_data() is None,
    {
        ErrorObject { code, message: code.message().to_owned(), data: None }
    }
}

/// Error that occurs when a call failed. The underlying errors are kept as
/// their messages.
#[derive(Debug, Clone, PartialEq, Eq)]
pub enum CallError {
    /// Invalid params in the call.
    InvalidParams(String),
    /// The call failed (let the server assign default error code and error message).
    Failed(String),
    /// Custom error with specific JSON-RPC error code, message and data.
    Custom(ErrorObject),
}

impl CallError {
    /// Create `CallError` from the message of a generic error.
    pub fn from_std_error(message: String) -> (res: Self)
        ensures
            res == CallError::Failed(message),
    {
        CallError::Failed(message)
    }

    /// The error object that answers a failed call: invalid params and
    /// failures get their standard codes and the error's message, a custom
    /// error is answered as it is.
    pub fn into_error_object(self) -> (res: ErrorObject)
        ensures
            self matches CallError::InvalidParams(m) ==> res.spec_code() == ErrorCode::InvalidParams
                && res.spec_message() == m@ && res.spec_data() is None,
            self matches CallError::Failed(m) ==> res.spec_code() == ErrorCode::ServerError(CALL_EXECUTION_FAILED_CODE)
                && res.spec_message() == m@ && res.spec_data() is None,
            self matches CallError::Custom(e) ==> res == e,
    {
        match self {
            CallError::InvalidParams(e) => ErrorObject::owned(INVALID_PARAMS_CODE, e, None),
            CallError::Failed(e) => ErrorObject::owned(CALL_EXECUTION_FAILED_CODE, e, None),
            CallError::Custom(err) => err,
        }
    }
}

/// The data of a rejection because of a limit: the JSON text of the string
/// "Exceeded max limit of " followed by the limit in decimal.
pub open spec fn limit_data(limit: u32) -> Seq<char> {
    json_string("Exceeded max limit of "@ + decimal(limit as nat))
}

/// The JSON text of the string "Exceeded max limit of {limit}".
fn limit_exceeded_data(limit: u32) -> (res: String)
    ensures
        res@ == limit_data(limit),
{
    let mut text = String::new();
    push_str(&mut text, "Exceeded max limit of ");
    push_decimal(&mut text, limit as u64);
    encode_json_string(text.as_str())
}

/// Helper to get a `JSON-RPC` error object when the maximum number of subscriptions have been exceeded.
pub fn reject_too_many_subscriptions(limit: u32) -> (res: ErrorObjectOwned)
    ensures
        res.spec_code() == ErrorCode::ServerError(TOO_MANY_SUBSCRIPTIONS_CODE),
        res.spec_message() == TOO_MANY_SUBSCRIPTIONS_MSG@,
        res.spec_data() == Some(limit_data(limit)),
{
    ErrorObject::owned(
        TOO_MANY_SUBSCRIPTIONS_CODE,
        TOO_MANY_SUBSCRIPTIONS_MSG.to_owned(),
        Some(limit_exceeded_data(limit)),
    )
}

/// Helper to get a `JSON-RPC` error object when the maximum request size limit have been exceeded.
pub fn reject_too_big_request(limit: u32) -> (res: ErrorObjectOwned)
    ensures
        res.spec_code() == ErrorCode::OversizedRequest,
        res.spec_message() == OVERSIZED_REQUEST_MSG@,
        res.spec_data() == Some(limit_data(limit)),
{
    ErrorObject::owned(
        OVERSIZED_REQUEST_CODE,
        OVERSIZED_REQUEST_MSG.to_owned(),
        Some(limit_exceeded_data(limit)),
    )
}

} // verus!
