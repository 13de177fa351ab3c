//! Helpers of the servers: the JSON text of the answers they send, and the
//! sending of it to the connection's outgoing channel.

use crate::channels::unbounded_send;
use crate::json::{encode_json_string, json_string};
use crate::text::{decimal, joined, push_decimal, push_joined, push_str, signed_decimal};
use crate::types::jsonrpc_v2::{notification_json, JsonRpcNotification, JsonRpcNotificationParams, TwoPointZero};
use crate::types::v2::error::{
    invalid_subscription_err, rpc_error_json, ErrorCode, ErrorObject, RpcError, CALL_EXECUTION_FAILED_CODE,
};
use crate::types::v2::params::{id_json, Id};
use futures_channel::mpsc;
use vstd::prelude::*;

verus! {

/// Where the answers of a connection are queued for sending.
pub type MethodSink = mpsc::UnboundedSender<String>;

/// The JSON text of the answer to a request that failed with `code`, with the
/// code's standard message and no data.
pub open spec fn error_answer_json(code: ErrorCode, id: Id) -> Seq<char> {
    "{\"jsonrpc\":\"2.0\",\"error\":{\"code\":"@ + signed_decimal(code.spec_code() as int) + ",\"message\":"@
        + json_string(code.spec_message()) + "},\"id\":"@ + id_json(id) + "}"@
}

/// The JSON text of the answer to a request that failed with `code`.
pub fn error_answer(code: ErrorCode, id: Id) -> (res: String)
    ensures
        res@ == error_answer_json(code, id),
{
    let ghost id0 = id;
    let err = RpcError::new(ErrorObject::from_code(code), id);
    let res = err.to_string();
    assert(res@ =~= error_answer_json(code, id0));
    res
}

/// The JSON text of a successful answer: the version, the result (given as
/// JSON text) and the request ID.
pub open spec fn response_json(id: Id, result: Seq<char>) -> Seq<char> {
    "{\"jsonrpc\":\"2.0\",\"result\":"@ + result + ",\"id\":"@ + id_json(id) + "}"@
}

/// The JSON text of a successful answer whose result is the JSON text `result`.
pub fn response_text(id: &Id, result: &str) -> (res: String)
    ensures
        res@ == response_json(*id, result@),
{
    let mut out = String::new();
    push_str(&mut out, "{\"jsonrpc\":\"2.0\",\"result\":");
    push_str(&mut out, result);
    push_str(&mut out, ",\"id\":");
    id.push_json(&mut out);
    push_str(&mut out, "}");
    assert(out@ =~= response_json(*id, result@));
    out
}

/// Sends a successful answer, whose result is the JSON text `result`, to the
/// client. Returns whether it was queued.
pub fn send_response(id: Id, tx: &MethodSink, result: &str) -> (queued: bool) {
    let json = response_text(&id, result);
    unbounded_send(tx, json)
}

/// Sends an error answer to the client. Returns whether it was queued.
pub fn send_error(id: Id, tx: &MethodSink, error: ErrorObject) -> (queued: bool) {
    let json = RpcError::new(error, id).to_string();
    unbounded_send(tx, json)
}

/// The ID and the error code with which a request that could not be read
/// is answered, given the ID of the request when it could at least be read
/// as a request object: that ID and "invalid request", else no ID and
/// "parse error".
pub fn prepare_error(invalid_request_id: Option<Id>) -> (res: (Id, ErrorCode))
    ensures
        invalid_request_id matches Some(id) ==> res == (id, ErrorCode::InvalidRequest),
        invalid_request_id is None ==> res == (Id::Null, ErrorCode::ParseError),
{
    match invalid_request_id {
        Some(id) => (id, ErrorCode::InvalidRequest),
        None => (Id::Null, ErrorCode::ParseError),
    }
}

/// The JSON text of the answer to a batch: its answers in square brackets,
/// separated by commas (`[]` when there are none).
pub open spec fn batch_response_json(responses: Seq<Seq<char>>) -> Seq<char> {
    "["@ + joined(responses) + "]"@
}

/// Joins the answers of a batch into the answer to the batch.
pub fn collect_batch_response(responses: Vec<String>) -> (res: String)
    ensures
        res@ == batch_response_json(responses@.map_values(|r: String| r@)),
{
    let mut out = String::new();
    push_str(&mut out, "[");
    push_joined(&mut out, &responses);
    push_str(&mut out, "]");
    out
}

/// The subscription ID made of a random number: its low 53 bits, so that
/// it is an integer a JavaScript number holds exactly.
pub fn subscription_id_from_random(random: u64) -> (res: u64)
    ensures
        res == random % 0x20_0000_0000_0000,
{
    let mask: u64 = 0xffff_ffff_ffff_ffffu64 >> 11u64;
    assert(mask == 0x1f_ffff_ffff_ffff) by (bit_vector)
        requires
            mask == 0xffff_ffff_ffff_ffffu64 >> 11u64,
    ;
    let res = random & mask;
    assert(res == random % 0x20_0000_0000_0000) by (bit_vector)
        requires
            res == random & mask,
            mask == 0x1f_ffff_ffff_ffff,
    ;
    res
}

/// The answer to a subscribe call that started a subscription: its ID.
pub fn subscription_started_answer(id: &Id, sub_id: u64) -> (res: String)
    ensures
        res@ == response_json(*id, decimal(sub_id as nat)),
{
    let mut result = String::new();
    push_decimal(&mut result, sub_id);
    response_text(id, result.as_str())
}

/// The answer to a subscribe call whose callback failed.
pub fn subscription_failed_answer(id: Id) -> (res: String)
    ensures
        res@ == error_answer_json(ErrorCode::ServerError(CALL_EXECUTION_FAILED_CODE), id),
{
    error_answer(ErrorCode::ServerError(CALL_EXECUTION_FAILED_CODE), id)
}

/// The answer to an unsubscribe call that ended a subscription: the string `Unsubscribed`.
pub fn unsubscribed_answer(id: &Id) -> (res: String)
    ensures
        res@ == response_json(*id, json_string("Unsubscribed"@)),
{
    let result = encode_json_string("Unsubscribed");
    response_text(id, result.as_str())
}

/// The JSON text of the answer to a request that failed with `code`, with the
/// code's standard message and the JSON text `data` as data.
pub open spec fn error_answer_with_data_json(code: ErrorCode, data: Seq<char>, id: Id) -> Seq<char> {
    "{\"jsonrpc\":\"2.0\",\"error\":{\"code\":"@ + signed_decimal(code.spec_code() as int) + ",\"message\":"@
        + json_string(code.spec_message()) + ",\"data\":"@ + data + "},\"id\":"@ + id_json(id) + "}"@
}

/// The answer to an unsubscribe call that names no subscription: the
/// invalid-subscription error, with the message as a JSON string for data.
fn invalid_subscription_answer(id: Id, message: &str) -> (res: String)
    ensures
        res@ == error_answer_with_data_json(
            ErrorCode::ServerError(crate::types::v2::error::INVALID_SUBSCRIPTION_CODE),
            json_string(message@),
            id,
        ),
{
    let ghost id0 = id;
    let data = encode_json_string(message);
    let res = RpcError::new(invalid_subscription_err(Some(data)), id).to_string();
    assert(res@ =~= error_answer_with_data_json(
        ErrorCode::ServerError(crate::types::v2::error::INVALID_SUBSCRIPTION_CODE),
        json_string(message@),
        id0,
    ));
    res
}

/// The answer to an unsubscribe call whose parameter is not a subscription
/// ID: the invalid-subscription error, saying so in its data.
pub fn invalid_subscription_type_answer(id: Id) -> (res: String)
    ensures
        res@ == error_answer_with_data_json(
            ErrorCode::ServerError(crate::types::v2::error::INVALID_SUBSCRIPTION_CODE),
            json_string("Invalid subscription ID type, must be integer"@),
            id,
        ),
{
    invalid_subscription_answer(id, "Invalid subscription ID type, must be integer")
}

/// The answer to an unsubscribe call for a subscription ID that is not
/// active on the connection: the invalid-subscription error, naming the ID
/// in its data.
pub fn unknown_subscription_answer(id: Id, sub_id: u64) -> (res: String)
    ensures
        res@ == error_answer_with_data_json(
            ErrorCode::ServerError(crate::types::v2::error::INVALID_SUBSCRIPTION_CODE),
            json_string("Invalid subscription ID="@ + decimal(sub_id as nat)),
            id,
        ),
{
    let mut message = String::new();
    push_str(&mut message, "Invalid subscription ID=");
    push_decimal(&mut message, sub_id);
    invalid_subscription_answer(id, message.as_str())
}

/// The message that carries a new value of a subscription to its subscriber:
/// a notification of `method` with the subscription ID and the value's JSON text.
pub fn subscription_message(method: &str, sub_id: u64, result: &str) -> (res: String)
    ensures
        res@ == notification_json(method@, sub_id, result@),
{
    let notif = JsonRpcNotification {
        jsonrpc: TwoPointZero,
        method,
        params: JsonRpcNotificationParams { subscription: sub_id, result },
    };
    notif.to_json()
}

} // verus!
