//! What the client does with the messages that arrive from the server:
//! answers to method calls and subscription requests, failed responses and
//! answers to batches, each settled against the bookkeeping of the requests
//! in flight.

use crate::channels::bounded_channel;
use crate::json::{encode_json_string, json_null, json_string, JsonResult};
use crate::text::{decimal, push_decimal, push_str};
use crate::types::client::RequestMessage;
use crate::types::error::Error;
use crate::types::v2::error::{rpc_error_json, RpcError};
use crate::types::v2::params::{
    subscription_id_json, Id, JsonRpcSubscriptionParams, SubscriptionId, SubscriptionIdView,
};
use crate::types::v2::response::JsonRpcResponse;
use crate::ws_client::manager::{
    batch_order, lemma_sorted_ids, order_fits, request_status_of, sorted_ids, Kind, RequestManager, RequestStatus,
};
use futures_channel::{mpsc, oneshot};
use serde_json::Value as JsonValue;
use std::collections::HashMap;
use vstd::prelude::*;

verus! {

broadcast use vstd::std_specs::hash::group_hash_axioms;

/// Where the answer to a method call goes.
pub type CallOneshot = oneshot::Sender<Result<JsonValue, Error>>;

/// Where the answer to a subscription request goes: the receiver of its
/// notifications and the subscription ID, or why it failed.
pub type SubscriptionOneshot = oneshot::Sender<Result<(mpsc::Receiver<JsonValue>, SubscriptionId), Error>>;

/// Where the notifications of a subscription go.
pub type SubscriptionSink = mpsc::Sender<JsonValue>;

/// Where the answers to a batch go, in the order of its requests.
pub type BatchOneshot = oneshot::Sender<Result<Vec<JsonValue>, Error>>;

/// The bookkeeping of a client, with the channels it answers over.
pub type ClientRequestManager = RequestManager<CallOneshot, SubscriptionOneshot, SubscriptionSink, BatchOneshot>;

/// The subscription ID that a JSON value stands for, given what it holds as
/// an unsigned integer and as a string: the number if it is one, else the
/// string if it is one, else none.
pub fn subscription_id_from_parts(number: Option<u64>, text: Option<String>) -> (res: Option<SubscriptionId>)
    ensures
        number matches Some(n) ==> res == Some(SubscriptionId::Num(n)),
        number is None ==> (text matches Some(t) ==> res == Some(SubscriptionId::Str(t))),
        number is None && text is None ==> res is None,
{
    match number {
        Some(n) => Some(SubscriptionId::Num(n)),
        None => match text {
            Some(t) => Some(SubscriptionId::Str(t)),
            None => None,
        },
    }
}

/// A second subscription ID equal to the first.
fn copy_subscription_id(id: &SubscriptionId) -> (res: SubscriptionId)
    ensures
        res@ == id@,
{
    match id {
        SubscriptionId::Num(n) => SubscriptionId::Num(*n),
        SubscriptionId::Str(s) => SubscriptionId::Str(s.clone()),
    }
}

/// The JSON text of the request that cancels a subscription: a call of the
/// unsubscribe method with the subscription ID as its one parameter.
pub open spec fn unsubscribe_request_json(id: u64, method: Seq<char>, sub: SubscriptionIdView) -> Seq<char> {
    "{\"jsonrpc\":\"2.0\",\"id\":"@ + decimal(id as nat) + ",\"method\":"@ + json_string(method)
        + ",\"params\":["@ + subscription_id_json(sub) + "]}"@
}

/// The JSON text of the request that cancels a subscription.
pub fn unsubscribe_request_text(id: u64, method: &str, sub_id: &SubscriptionId) -> (res: String)
    ensures
        res@ == unsubscribe_request_json(id, method@, sub_id@),
{
    let mut out = String::new();
    push_str(&mut out, "{\"jsonrpc\":\"2.0\",\"id\":");
    push_decimal(&mut out, id);
    push_str(&mut out, ",\"method\":");
    let quoted = encode_json_string(method);
    push_str(&mut out, quoted.as_str());
    push_str(&mut out, ",\"params\":[");
    sub_id.push_json(&mut out);
    push_str(&mut out, "]}");
    assert(out@ =~= unsubscribe_request_json(id, method@, sub_id@));
    out
}

/// Builds an unsubscription message: removes the subscription and returns
/// the request that tells the server, under the request ID reserved for it.
pub fn build_unsubscribe_message(manager: &mut ClientRequestManager, sub_req_id: u64, sub_id: SubscriptionId) -> (res: Option<RequestMessage>)
    requires
        old(manager).wf(),
    ensures
        final(manager).wf(),
        final(manager).batches() == old(manager).batches(),
        res is Some <==> (old(manager).requests().contains_key(sub_req_id) && old(manager).requests()[sub_req_id] is Subscription
            && old(manager).subscriptions().contains_key(sub_id@)),
        res matches Some(msg) ==> {
            let entry = old(manager).requests()[sub_req_id]->Subscription_0;
            &&& msg.id == entry.0
            &&& msg.raw@ == unsubscribe_request_json(entry.0, entry.2@, sub_id@)
            &&& msg.send_back is None
            &&& final(manager).requests() == old(manager).requests().remove(sub_req_id)
            &&& final(manager).subscriptions() == old(manager).subscriptions().remove(sub_id@)
        },
        res is None ==> final(manager).requests() == old(manager).requests()
            && final(manager).subscriptions() == old(manager).subscriptions(),
{
    match manager.remove_subscription(sub_req_id, sub_id) {
        Some((unsub_req_id, _sink, unsub, removed_id)) => {
            let raw = unsubscribe_request_text(unsub_req_id, unsub.as_str(), &removed_id);
            Some(RequestMessage { raw, id: unsub_req_id, send_back: None })
        },
        None => None,
    }
}


/// The subscription ID that the parts of a JSON value give: the number
/// when it holds an unsigned integer, else the string when it holds one.
pub open spec fn id_of_parts(number: Option<u64>, text: Option<String>) -> Option<SubscriptionId> {
    match number {
        Some(n) => Some(SubscriptionId::Num(n)),
        None => match text {
            Some(t) => Some(SubscriptionId::Str(t)),
            None => None,
        },
    }
}

/// How the answer to the pending subscription request `id` is settled when
/// it gives the subscription ID `sub`, from the requests and subscriptions
/// before to those after. The request is done with in any case. When there
/// is no ID, or the ID is in use already, the caller is to be refused;
/// otherwise the subscription becomes active under exactly that ID, keeping
/// the request ID reserved for cancelling it and the unsubscribe method,
/// and the caller is to be handed that ID.
pub open spec fn subscription_settled<C, S>(
    old_requests: Map<u64, Kind<C, SubscriptionOneshot, S>>,
    old_subs: Map<SubscriptionIdView, u64>,
    new_requests: Map<u64, Kind<C, SubscriptionOneshot, S>>,
    new_subs: Map<SubscriptionIdView, u64>,
    id: u64,
    sub: Option<SubscriptionId>,
    res: Result<SingleOutcome, Error>,
) -> bool {
    let entry = old_requests[id]->PendingSubscription_0;
    let refused = sub is None || old_subs.contains_key(sub->0@);
    &&& refused ==> {
        &&& res matches Ok(SingleOutcome::Refuse(tx))
        &&& tx == entry.1
        &&& new_requests == old_requests.remove(id)
        &&& new_subs == old_subs
    }
    &&& !refused ==> {
        &&& res matches Ok(SingleOutcome::Subscribed(tx, _rx, sid))
        &&& tx == entry.1
        &&& sid@ == sub->0@
        &&& new_subs == old_subs.insert(sub->0@, id)
        &&& new_requests.contains_key(id)
        &&& new_requests.remove(id) == old_requests.remove(id)
        &&& new_requests[id] is Subscription
        &&& new_requests[id]->Subscription_0.0 == entry.0
        &&& new_requests[id]->Subscription_0.2 == entry.2
    }
}

/// What is left to do once a response to a single request is processed.
pub enum SingleOutcome {
    /// Nothing.
    Done,
    /// Hand the result of a method call to its caller: send `Ok` of the
    /// value on the channel.
    Answer(CallOneshot, JsonValue),
    /// Tell the caller of a subscription request that the server answered
    /// with no usable subscription ID: send `Err(Error::InvalidSubscriptionId)`
    /// on the channel.
    Refuse(SubscriptionOneshot),
    /// The subscription is active: send `Ok` of the receiver of its
    /// notifications and its ID on the channel. Should that fail, the caller
    /// is gone: cancel the subscription with [`build_unsubscribe_message`]
    /// and send the request it returns to the server.
    Subscribed(SubscriptionOneshot, mpsc::Receiver<JsonValue>, SubscriptionId),
}

/// Process a response from the server.
///
/// Returns what is left to do: the result to hand to the caller of a method
/// call, or the answer to hand to the caller of a subscription request,
/// whose subscription ID is what the result holds as an unsigned integer,
/// else as a string (see [`JsonResult`]).
/// Returns `Err(_)` if the response couldn't be handled.
pub fn process_single_response(
    manager: &mut ClientRequestManager,
    response: JsonRpcResponse<JsonResult>,
    max_capacity_per_subscription: usize,
) -> (res: Result<SingleOutcome, Error>)
    requires
        old(manager).wf(),
        max_capacity_per_subscription < usize::MAX / 4,
    ensures
        final(manager).wf(),
        final(manager).batches() == old(manager).batches(),
        !(response.id is Number) ==> res == Err::<SingleOutcome, Error>(Error::InvalidRequestId)
            && *final(manager) == *old(manager),
        response.id matches Id::Number(n) ==> match request_status_of(old(manager).requests(), n) {
            RequestStatus::PendingMethodCall => {
                let entry = old(manager).requests()[n]->PendingMethodCall_0;
                &&& entry is Some ==> (res matches Ok(SingleOutcome::Answer(t, v)) && t == entry->0 && v
                    == response.result.value())
                &&& entry is None ==> (res matches Ok(SingleOutcome::Done))
                &&& final(manager).requests() == old(manager).requests().remove(n)
                &&& final(manager).subscriptions() == old(manager).subscriptions()
            },
            RequestStatus::PendingSubscription => subscription_settled(
                old(manager).requests(),
                old(manager).subscriptions(),
                final(manager).requests(),
                final(manager).subscriptions(),
                n,
                id_of_parts(response.result.number(), response.result.text()),
                res,
            ),
            _ => res == Err::<SingleOutcome, Error>(Error::InvalidRequestId) && *final(manager) == *old(manager),
        },
{
    let response_id: u64 = match response.id.as_number() {
        Some(n) => *n,
        None => return Err(Error::InvalidRequestId),
    };
    let (value, number, text) = response.result.into_parts();
    match manager.request_status(&response_id) {
        RequestStatus::PendingMethodCall => {
            match manager.complete_pending_call(response_id) {
                Some(Some(send_back_oneshot)) => Ok(SingleOutcome::Answer(send_back_oneshot, value)),
                Some(None) => Ok(SingleOutcome::Done),
                None => Err(Error::InvalidRequestId),
            }
        },
        RequestStatus::PendingSubscription => {
            accept_subscription(manager, response_id, number, text, max_capacity_per_subscription)
        },
        RequestStatus::Subscription | RequestStatus::Invalid => Err(Error::InvalidRequestId),
    }
}

/// Settles the server's answer to the pending subscription request
/// `response_id`, given what the answer's result holds as an unsigned
/// integer (`number`) and as a string (`text`): the subscription ID is the
/// number if there is one, else the string.
pub fn accept_subscription(
    manager: &mut ClientRequestManager,
    response_id: u64,
    number: Option<u64>,
    text: Option<String>,
    max_capacity_per_subscription: usize,
) -> (res: Result<SingleOutcome, Error>)
    requires
        old(manager).wf(),
        max_capacity_per_subscription < usize::MAX / 4,
    ensures
        final(manager).wf(),
        final(manager).batches() == old(manager).batches(),
        request_status_of(old(manager).requests(), response_id) == RequestStatus::PendingSubscription ==> subscription_settled(
            old(manager).requests(),
            old(manager).subscriptions(),
            final(manager).requests(),
            final(manager).subscriptions(),
            response_id,
            id_of_parts(number, text),
            res,
        ),
        request_status_of(old(manager).requests(), response_id) != RequestStatus::PendingSubscription ==> res
            == Err::<SingleOutcome, Error>(Error::InvalidRequestId) && final(manager).requests() == old(
            manager,
        ).requests() && final(manager).subscriptions() == old(manager).subscriptions(),
{
    let ghost requests0 = manager.requests();
    let (unsub_id, send_back_oneshot, unsubscribe_method) = match manager.complete_pending_subscription(response_id) {
        Some(entry) => entry,
        None => return Err(Error::InvalidRequestId),
    };
    let sub_id = match subscription_id_from_parts(number, text) {
        Some(sub_id) => sub_id,
        None => {
            return Ok(SingleOutcome::Refuse(send_back_oneshot));
        },
    };
    let (subscribe_tx, subscribe_rx) = bounded_channel(max_capacity_per_subscription);
    let inserted = manager.insert_subscription(
        response_id,
        unsub_id,
        copy_subscription_id(&sub_id),
        subscribe_tx,
        unsubscribe_method,
    );
    if inserted.is_ok() {
        assert(manager.requests().remove(response_id) =~= requests0.remove(response_id));
        Ok(SingleOutcome::Subscribed(send_back_oneshot, subscribe_rx, sub_id))
    } else {
        Ok(SingleOutcome::Refuse(send_back_oneshot))
    }
}

/// What a caller is told when the server answers its request with an
/// error: the JSON text of the failed response.
pub fn error_response_answer(err: &RpcError) -> (res: Error)
    ensures
        res matches Error::Request(text) && text@ == rpc_error_json(*err),
{
    Error::Request(err.to_string())
}

/// Whether `e` is what a caller is told of the failed response `err`: its
/// JSON text.
pub open spec fn told_error(e: Error, err: RpcError) -> bool {
    e matches Error::Request(text) && text@ == rpc_error_json(err)
}

/// Who is to be told of a failed response, and what.
pub enum ErrorDelivery {
    /// Nobody: the method call had no channel.
    Nobody,
    /// The caller of a method call: send `Err` of the error on the channel.
    Call(CallOneshot, Error),
    /// The caller of a subscription request: send `Err` of the error on the channel.
    Subscription(SubscriptionOneshot, Error),
}

/// Attempts to process an error response: the pending request it answers is
/// done with, and its caller is to be told the error.
///
/// Returns `Ok` with whom to tell what if the request was pending.
/// Returns `Err(_)` if the response ID was not found.
pub fn process_error_response(manager: &mut ClientRequestManager, err: RpcError) -> (res: Result<ErrorDelivery, Error>)
    requires
        old(manager).wf(),
    ensures
        final(manager).wf(),
        final(manager).batches() == old(manager).batches(),
        final(manager).subscriptions() == old(manager).subscriptions(),
        ({
            let pending = err.id matches Id::Number(n) && (request_status_of(old(manager).requests(), n)
                == RequestStatus::PendingMethodCall || request_status_of(old(manager).requests(), n)
                == RequestStatus::PendingSubscription);
            &&& pending ==> res is Ok && final(manager).requests() == old(manager).requests().remove(err.id->Number_0)
            &&& !pending ==> res == Err::<ErrorDelivery, Error>(Error::InvalidRequestId) && *final(manager) == *old(manager)
        }),
        err.id is Number && request_status_of(old(manager).requests(), err.id->Number_0) == RequestStatus::PendingMethodCall
            ==> {
            let entry = old(manager).requests()[err.id->Number_0]->PendingMethodCall_0;
            &&& entry is None ==> (res matches Ok(ErrorDelivery::Nobody))
            &&& entry is Some ==> (res matches Ok(ErrorDelivery::Call(tx, e)) && tx == entry->0 && told_error(e, err))
        },
        err.id is Number && request_status_of(old(manager).requests(), err.id->Number_0)
            == RequestStatus::PendingSubscription ==> {
            let entry = old(manager).requests()[err.id->Number_0]->PendingSubscription_0;
            res matches Ok(ErrorDelivery::Subscription(tx, e)) && tx == entry.1 && told_error(e, err)
        },
{
    let id: u64 = match err.id.as_number() {
        Some(n) => *n,
        None => return Err(Error::InvalidRequestId),
    };
    match manager.request_status(&id) {
        RequestStatus::PendingMethodCall => {
            match manager.complete_pending_call(id) {
                Some(Some(send_back)) => Ok(ErrorDelivery::Call(send_back, error_response_answer(&err))),
                _ => Ok(ErrorDelivery::Nobody),
            }
        },
        RequestStatus::PendingSubscription => {
            match manager.complete_pending_subscription(id) {
                Some((_, send_back, _)) => Ok(ErrorDelivery::Subscription(send_back, error_response_answer(&err))),
                None => vstd::pervasive::unreached(),
            }
        },
        _ => Err(Error::InvalidRequestId),
    }
}

/// Every answer carries a numeric request ID that has a position below `len`.
pub open spec fn answers_placeable<T>(order: Map<u64, usize>, answers: Seq<JsonRpcResponse<T>>, len: nat) -> bool {
    forall|i: int|
        0 <= i < answers.len() ==> {
            &&& #[trigger] answers[i].id is Number
            &&& order.contains_key(answers[i].id->Number_0)
            &&& order[answers[i].id->Number_0] < len
        }
}

/// The answers of a batch laid out by position: starting from `slots`, each
/// answer in turn is put at the position of its request ID, a later answer
/// for a position replacing an earlier one.
pub open spec fn arranged<T>(order: Map<u64, usize>, answers: Seq<JsonRpcResponse<T>>, slots: Seq<T>) -> Seq<T>
    decreases answers.len(),
{
    if answers.len() == 0 {
        slots
    } else {
        let last = answers.last();
        arranged(order, answers.drop_last(), slots).update(order[last.id->Number_0] as int, last.result)
    }
}

proof fn lemma_arranged_len<T>(order: Map<u64, usize>, answers: Seq<JsonRpcResponse<T>>, slots: Seq<T>)
    requires
        answers_placeable(order, answers, slots.len()),
    ensures
        arranged(order, answers, slots).len() == slots.len(),
    decreases answers.len(),
{
    if answers.len() > 0 {
        let rest = answers.drop_last();
        assert forall|i: int| 0 <= i < rest.len() implies #[trigger] rest[i].id is Number
            && order.contains_key(rest[i].id->Number_0) && order[rest[i].id->Number_0] < slots.len() by {
            assert(rest[i] == answers[i]);
        }
        lemma_arranged_len(order, rest, slots);
        assert(answers[answers.len() - 1].id is Number);
    }
}

/// Puts the result of each answer of a batch at the position of its request
/// ID in `order`, over the values in `slots`.
pub fn arrange_batch_results<T>(order: &HashMap<u64, usize>, answers: Vec<JsonRpcResponse<T>>, slots: Vec<T>) -> (res: Vec<T>)
    requires
        answers_placeable(order@, answers@, slots@.len()),
    ensures
        res@ == arranged(order@, answers@, slots@),
{
    let ghost all = answers@;
    let mut out = slots;
    for a in it: answers.into_iter()
        invariant
            it.seq() == all,
            answers_placeable(order@, all, slots@.len()),
            out@ == arranged(order@, all.take(it.index() as int), slots@),
    {
        proof {
            let k = it.index() as int;
            assert(all[k] == a);
            assert(all.take(k + 1).drop_last() =~= all.take(k));
            let pre = all.take(k);
            assert forall|i: int| 0 <= i < pre.len() implies #[trigger] pre[i].id is Number
                && order@.contains_key(pre[i].id->Number_0) && order@[pre[i].id->Number_0] < slots@.len() by {
                assert(pre[i] == all[i]);
            }
            lemma_arranged_len(order@, pre, slots@);
        }
        match a.id {
            Id::Number(n) => {
                let pos = *order.get(&n).unwrap();
                out.set(pos, a.result);
            },
            _ => {},
        }
    }
    proof {
        assert(all.take(all.len() as int) =~= all);
    }
    out
}

/// The request IDs that the answers of a batch carry, in the order the
/// answers came.
pub open spec fn answer_ids<T>(answers: Seq<JsonRpcResponse<T>>) -> Seq<u64> {
    answers.map_values(|a: JsonRpcResponse<T>| a.id->Number_0)
}

/// In a batch whose request IDs are distinct, each ID is found at its own
/// position, and no other ID is found.
proof fn lemma_batch_order_distinct(batch: Seq<u64>)
    requires
        batch.no_duplicates(),
        batch.len() <= usize::MAX,
    ensures
        forall|k: u64| #[trigger] batch_order(batch).contains_key(k) <==> batch.contains(k),
        forall|i: int| 0 <= i < batch.len() ==> batch_order(batch)[#[trigger] batch[i]] == i,
    decreases batch.len(),
{
    if batch.len() > 0 {
        let rest = batch.drop_last();
        assert(rest.no_duplicates());
        lemma_batch_order_distinct(rest);
        assert(batch_order(batch) == batch_order(rest).insert(batch.last(), (batch.len() - 1) as usize));
        assert(batch[batch.len() - 1] == batch.last());
        assert forall|k: u64| #[trigger] batch_order(batch).contains_key(k) <==> batch.contains(k) by {
            if batch.contains(k) && k != batch.last() {
                let i = choose|i: int| 0 <= i < batch.len() && batch[i] == k;
                assert(rest[i] == k);
            }
            if rest.contains(k) {
                let i = choose|i: int| 0 <= i < rest.len() && rest[i] == k;
                assert(batch[i] == k);
            }
        }
        assert forall|i: int| 0 <= i < batch.len() implies batch_order(batch)[#[trigger] batch[i]] == i by {
            if i < batch.len() - 1 {
                assert(rest[i] == batch[i]);
                assert(batch[i] != batch.last());
            }
        }
    }
}

/// An answer whose position no other answer shares is found at that
/// position once the answers are laid out.
proof fn lemma_arranged_at<T>(order: Map<u64, usize>, answers: Seq<JsonRpcResponse<T>>, slots: Seq<T>, j: int)
    requires
        answers_placeable(order, answers, slots.len()),
        0 <= j < answers.len(),
        forall|k: int|
            0 <= k < answers.len() && k != j ==> order[#[trigger] answers[k].id->Number_0]
                != order[answers[j].id->Number_0],
    ensures
        arranged(order, answers, slots)[order[answers[j].id->Number_0] as int] == answers[j].result,
    decreases answers.len(),
{
    let last = answers.len() - 1;
    let rest = answers.drop_last();
    assert(answers[j].id is Number);
    assert(answers[last].id is Number);
    assert forall|i: int| 0 <= i < rest.len() implies #[trigger] rest[i].id is Number
        && order.contains_key(rest[i].id->Number_0) && order[rest[i].id->Number_0] < slots.len() by {
        assert(rest[i] == answers[i]);
    }
    lemma_arranged_len(order, rest, slots);
    if j < last {
        assert forall|k: int| 0 <= k < rest.len() && k != j implies order[#[trigger] rest[k].id->Number_0]
            != order[rest[j].id->Number_0] by {
            assert(rest[k] == answers[k]);
        }
        assert(rest[j] == answers[j]);
        lemma_arranged_at(order, rest, slots, j);
        assert(order[answers[last].id->Number_0] != order[answers[j].id->Number_0]);
    }
}

/// The answers of a batch come back in the order of its requests: when the
/// request IDs of the batch are distinct and the answers carry exactly those
/// IDs, in any order, every answer can be placed, and each position of the
/// laid-out results holds the result of the answer to the request at that
/// position.
pub proof fn lemma_batch_results_in_request_order<T>(
    batch: Seq<u64>,
    answers: Seq<JsonRpcResponse<T>>,
    slots: Seq<T>,
)
    requires
        batch.no_duplicates(),
        batch.len() <= usize::MAX,
        slots.len() == batch.len(),
        forall|j: int| 0 <= j < answers.len() ==> #[trigger] answers[j].id is Number,
        answer_ids(answers).to_multiset() == batch.to_multiset(),
    ensures
        answers_placeable(batch_order(batch), answers, slots.len()),
        forall|i: int| 0 <= i < batch.len() ==> exists|j: int| 0 <= j < answers.len() && #[trigger] answers[j].id == Id::Number(#[trigger] batch[i]),
        forall|i: int, j: int|
            0 <= i < batch.len() && 0 <= j < answers.len() && #[trigger] answers[j].id == Id::Number(#[trigger] batch[i])
                ==> arranged(batch_order(batch), answers, slots)[i] == answers[j].result,
{
    broadcast use vstd::seq_lib::group_to_multiset_ensures;

    let ids = answer_ids(answers);
    let order = batch_order(batch);
    lemma_batch_order_distinct(batch);
    batch.lemma_multiset_has_no_duplicates();
    assert forall|x: u64| ids.to_multiset().contains(x) implies ids.to_multiset().count(x) == 1 by {}
    ids.lemma_multiset_has_no_duplicates_conv();
    assert forall|j: int| 0 <= j < answers.len() implies answers[j].id == Id::Number(#[trigger] ids[j]) by {
        assert(answers[j].id is Number);
    }
    // Every answer's ID is one of the batch's.
    assert forall|j: int| 0 <= j < answers.len() implies batch.contains(#[trigger] ids[j]) by {
        assert(ids.contains(ids[j]));
        assert(ids.to_multiset().count(ids[j]) > 0);
    }
    assert forall|j: int| 0 <= j < answers.len() implies #[trigger] answers[j].id is Number
        && order.contains_key(answers[j].id->Number_0) && order[answers[j].id->Number_0] < slots.len() by {
        assert(batch.contains(ids[j]));
        let i = choose|i: int| 0 <= i < batch.len() && batch[i] == ids[j];
        assert(order[batch[i]] == i);
    }
    assert forall|i: int| 0 <= i < batch.len() implies exists|j: int| 0 <= j < answers.len() && #[trigger] answers[j].id == Id::Number(#[trigger] batch[i]) by {
        assert(batch.contains(batch[i]));
        assert(batch.to_multiset().count(batch[i]) > 0);
        assert(ids.contains(batch[i]));
        let j = choose|j: int| 0 <= j < ids.len() && ids[j] == batch[i];
        assert(answers[j].id == Id::Number(ids[j]));
    }
    assert forall|i: int, j: int|
        0 <= i < batch.len() && 0 <= j < answers.len() && #[trigger] answers[j].id == Id::Number(#[trigger] batch[i])
            implies arranged(order, answers, slots)[i] == answers[j].result by {
        assert(ids[j] == batch[i]);
        assert(order[batch[i]] == i);
        assert forall|k: int| 0 <= k < answers.len() && k != j implies order[#[trigger] answers[k].id->Number_0]
            != order[answers[j].id->Number_0] by {
            assert(answers[k].id == Id::Number(ids[k]));
            assert(ids[k] != ids[j]);
            assert(batch.contains(ids[k]));
            let i2 = choose|i2: int| 0 <= i2 < batch.len() && batch[i2] == ids[k];
            assert(order[batch[i2]] == i2);
        }
        lemma_arranged_at(order, answers, slots, j);
    }
}

/// Answers whose request IDs are, in some order, those of a pending batch
/// can all be placed by the batch's positions.
proof fn lemma_answers_fit_batch<T>(answers: Seq<JsonRpcResponse<T>>, order: Map<u64, usize>)
    requires
        forall|j: int| 0 <= j < answers.len() ==> #[trigger] answers[j].id is Number,
        order_fits(sorted_ids(answer_ids(answers)), order),
    ensures
        answers_placeable(order, answers, answers.len()),
{
    broadcast use vstd::seq_lib::group_to_multiset_ensures;

    let ids = answer_ids(answers);
    let key = sorted_ids(ids);
    lemma_sorted_ids(ids);
    vstd::seq_lib::to_multiset_len(ids);
    vstd::seq_lib::to_multiset_len(key);
    assert(key.len() == answers.len());
    assert forall|j: int| 0 <= j < answers.len() implies #[trigger] answers[j].id is Number
        && order.contains_key(answers[j].id->Number_0) && order[answers[j].id->Number_0] < answers.len() by {
        let id = ids[j];
        assert(id == answers[j].id->Number_0);
        assert(ids.contains(id));
        vstd::seq_lib::to_multiset_contains(ids, id);
        vstd::seq_lib::to_multiset_contains(key, id);
        assert(key.contains(id));
        assert(order.contains_key(id));
    }
}

/// Attempts to process a batch response.
///
/// On success the batch is done with, and what is to be sent to the
/// frontend is returned: the batch's channel and the results of the answers,
/// each at the position of its request in the batch.
pub fn process_batch_response(manager: &mut ClientRequestManager, rps: Vec<JsonRpcResponse<JsonValue>>) -> (res: Result<
    (BatchOneshot, Vec<JsonValue>),
    Error,
>)
    requires
        old(manager).wf(),
    ensures
        final(manager).wf(),
        final(manager).requests() == old(manager).requests(),
        final(manager).subscriptions() == old(manager).subscriptions(),
        ({
            let numeric = forall|j: int| 0 <= j < rps@.len() ==> #[trigger] rps@[j].id is Number;
            let key = sorted_ids(answer_ids(rps@));
            &&& (numeric && old(manager).batches().contains_key(key)) ==> res is Ok
                && final(manager).batches() == old(manager).batches().remove(key)
            &&& !(numeric && old(manager).batches().contains_key(key)) ==> res == Err::<
                (BatchOneshot, Vec<JsonValue>),
                Error,
            >(Error::InvalidRequestId) && *final(manager) == *old(manager)
            &&& res matches Ok((tx, results)) ==> {
                let state = old(manager).batches()[key];
                &&& tx == state.send_back
                &&& answers_placeable(state.order@, rps@, rps@.len())
                &&& exists|slots: Seq<JsonValue>| slots.len() == rps@.len() && results@ == arranged(state.order@, rps@, slots)
            }
        }),
{
    let mut digest: Vec<u64> = Vec::new();
    let mut i: usize = 0;
    while i < rps.len()
        invariant
            i <= rps@.len(),
            digest@.len() == i,
            forall|j: int| 0 <= j < i ==> #[trigger] rps@[j].id is Number && digest@[j] == rps@[j].id->Number_0,
            *manager == *old(manager),
            old(manager).wf(),
        decreases rps@.len() - i,
    {
        match rps[i].id.as_number() {
            Some(n) => digest.push(*n),
            None => {
                assert(!(rps@[i as int].id is Number));
                return Err(Error::InvalidRequestId);
            },
        }
        i = i + 1;
    }
    let ghost ids = digest@;
    assert(ids =~= answer_ids(rps@));
    let mut slots: Vec<JsonValue> = Vec::new();
    let mut k: usize = 0;
    while k < rps.len()
        invariant
            k <= rps@.len(),
            slots@.len() == k,
            *manager == *old(manager),
            old(manager).wf(),
        decreases rps@.len() - k,
    {
        slots.push(json_null());
        k = k + 1;
    }
    let batch_state = match manager.complete_pending_batch(digest) {
        Some(state) => state,
        None => return Err(Error::InvalidRequestId),
    };
    proof {
        lemma_answers_fit_batch(rps@, batch_state.order@);
    }
    let ghost answers = rps@;
    let ghost slots0 = slots@;
    let ordered = arrange_batch_results(&batch_state.order, rps, slots);
    assert(slots0.len() == answers.len() && ordered@ == arranged(batch_state.order@, answers, slots0));
    Ok((batch_state.send_back, ordered))
}

/// Whether a subscription ID belongs to an active subscription.
pub open spec fn is_active_subscription<C, P, S>(
    requests: Map<u64, Kind<C, P, S>>,
    subs: Map<SubscriptionIdView, u64>,
    sub: SubscriptionIdView,
) -> bool {
    &&& subs.contains_key(sub)
    &&& requests.contains_key(subs[sub])
    &&& requests[subs[sub]] is Subscription
}

/// Attempts to process a subscription notification: finds the sink of the
/// active subscription it is for, and returns the subscription's request ID,
/// the sink and the value to queue on it. The caller queues the value
/// (`try_send`) and then hands whether that worked to
/// [`settle_notification`]. Returns `None` if the subscription was not found.
pub fn process_subscription_response(
    manager: &mut ClientRequestManager,
    notif: JsonRpcSubscriptionParams<JsonValue>,
) -> (res: Option<(u64, &mut SubscriptionSink, JsonValue)>)
    requires
        old(manager).wf(),
    ensures
        final(manager).wf(),
        final(manager).batches() == old(manager).batches(),
        final(manager).subscriptions() == old(manager).subscriptions(),
        !is_active_subscription(old(manager).requests(), old(manager).subscriptions(), notif.subscription@) ==> {
            &&& res is None
            &&& final(manager).requests() == old(manager).requests()
        },
        is_active_subscription(old(manager).requests(), old(manager).subscriptions(), notif.subscription@) ==> {
            let id = old(manager).subscriptions()[notif.subscription@];
            let entry = old(manager).requests()[id]->Subscription_0;
            &&& res matches Some((rid, sink, value)) && rid == id && *sink == entry.1 && value == notif.result
                && final(manager).requests() == old(manager).requests().insert(
                id,
                Kind::Subscription((entry.0, *final(sink), entry.2)),
            )
        },
{
    let sub_id = notif.subscription;
    let request_id = match manager.get_request_id_by_subscription_id(&sub_id) {
        Some(request_id) => request_id,
        None => return None,
    };
    match manager.as_subscription_mut(&request_id) {
        Some(send_back_sink) => Some((request_id, send_back_sink, notif.result)),
        None => None,
    }
}

/// What follows the attempt to queue a notification on the sink of the
/// active subscription `request_id`, whose subscription ID is `sub_id`:
/// when it was queued, nothing; when it was not (the sink was full or its
/// receiver gone), the subscription is cancelled and the request that tells
/// the server is returned.
pub fn settle_notification(manager: &mut ClientRequestManager, request_id: u64, sub_id: SubscriptionId, queued: bool) -> (res: Result<
    (),
    Option<RequestMessage>,
>)
    requires
        old(manager).wf(),
        is_active_subscription(old(manager).requests(), old(manager).subscriptions(), sub_id@),
        old(manager).subscriptions()[sub_id@] == request_id,
    ensures
        final(manager).wf(),
        final(manager).batches() == old(manager).batches(),
        queued ==> res is Ok && *final(manager) == *old(manager),
        !queued ==> {
            let entry = old(manager).requests()[request_id]->Subscription_0;
            &&& res matches Err(Some(msg))
            &&& msg.id == entry.0
            &&& msg.send_back is None
            &&& msg.raw@ == unsubscribe_request_json(entry.0, entry.2@, sub_id@)
            &&& final(manager).requests() == old(manager).requests().remove(request_id)
            &&& final(manager).subscriptions() == old(manager).subscriptions().remove(sub_id@)
        },
{
    if queued {
        Ok(())
    } else {
        let ghost requests0 = manager.requests();
        match build_unsubscribe_message(manager, request_id, sub_id) {
            Some(msg) => {
                assert(manager.requests() =~= requests0.remove(request_id));
                Err(Some(msg))
            },
            None => vstd::pervasive::unreached(),
        }
    }
}

} // verus!
