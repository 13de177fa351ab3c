use futures_channel::{mpsc, oneshot};
use jsonrpsee::json::JsonResult;
use jsonrpsee::types::error::Error;
use jsonrpsee::types::v2::error::{ErrorCode, ErrorObject, RpcError};
use jsonrpsee::types::v2::params::{Id, JsonRpcSubscriptionParams, SubscriptionId, TwoPointZero};
use jsonrpsee::types::v2::response::JsonRpcResponse;
use jsonrpsee::types::client::RequestMessage;
use jsonrpsee::ws_client::helpers::{
    accept_subscription, arrange_batch_results, build_unsubscribe_message, process_batch_response, process_error_response,
    process_single_response, process_subscription_response, settle_notification, subscription_id_from_parts,
    unsubscribe_request_text, ClientRequestManager, ErrorDelivery, SingleOutcome,
};
use serde_json::Value as JsonValue;
use std::collections::HashMap;

fn response(id: Id, result: JsonValue) -> JsonRpcResponse<JsonResult> {
    JsonRpcResponse { jsonrpc: TwoPointZero, result: JsonResult::new(result), id }
}

fn batch_answer(id: Id, result: JsonValue) -> JsonRpcResponse<JsonValue> {
    JsonRpcResponse { jsonrpc: TwoPointZero, result, id }
}

/// Does what a processed single response leaves to do, as the client's
/// background task does: returns the unsubscribe request to send, if any.
fn deliver(manager: &mut ClientRequestManager, request_id: u64, outcome: SingleOutcome) -> Option<RequestMessage> {
    match outcome {
        SingleOutcome::Done => None,
        SingleOutcome::Answer(tx, value) => {
            let _ = tx.send(Ok(value));
            None
        }
        SingleOutcome::Refuse(tx) => {
            let _ = tx.send(Err(Error::InvalidSubscriptionId));
            None
        }
        SingleOutcome::Subscribed(tx, rx, sub_id) => match tx.send(Ok((rx, sub_id.clone()))) {
            Ok(()) => None,
            Err(_) => build_unsubscribe_message(manager, request_id, sub_id),
        },
    }
}

/// Queues a notification on its subscription's sink and settles the outcome.
fn notify(
    manager: &mut ClientRequestManager,
    notif: JsonRpcSubscriptionParams<JsonValue>,
) -> Result<(), Option<RequestMessage>> {
    let sub_id = notif.subscription.clone();
    match process_subscription_response(manager, notif) {
        None => Err(None),
        Some((request_id, sink, value)) => {
            let queued = sink.try_send(value).is_ok();
            settle_notification(manager, request_id, sub_id, queued)
        }
    }
}

#[test]
fn pending_call_gets_its_result() {
    let (tx, mut rx) = oneshot::channel::<Result<JsonValue, Error>>();
    let mut manager = ClientRequestManager::new();
    manager.insert_pending_call(1, Some(tx)).unwrap();
    let res = process_single_response(&mut manager, response(Id::Number(1), JsonValue::from(5u64)), 4);
    match res {
        Ok(SingleOutcome::Answer(send_back, value)) => {
            assert_eq!(value, JsonValue::from(5u64));
            send_back.send(Ok(value)).unwrap();
        }
        _ => panic!("expected the call's result"),
    }
    assert_eq!(rx.try_recv().unwrap().unwrap().unwrap(), JsonValue::from(5u64));
    assert!(manager.complete_pending_call(1).is_none());
}

#[test]
fn response_with_unknown_or_non_numeric_id_is_refused() {
    let mut manager = ClientRequestManager::new();
    let res = process_single_response(&mut manager, response(Id::Number(9), JsonValue::Null), 4);
    assert!(matches!(res, Err(Error::InvalidRequestId)));
    let res = process_single_response(&mut manager, response(Id::Str("9".into()), JsonValue::Null), 4);
    assert!(matches!(res, Err(Error::InvalidRequestId)));
}

#[test]
fn subscription_answer_starts_the_subscription_and_notifications_flow() {
    let (tx, mut rx) = oneshot::channel::<Result<(mpsc::Receiver<JsonValue>, SubscriptionId), Error>>();
    let mut manager = ClientRequestManager::new();
    manager.insert_pending_subscription(1, 2, tx, "unsub".into()).unwrap();
    let res = process_single_response(&mut manager, response(Id::Number(1), JsonValue::from("abc")), 4);
    match res {
        Ok(SingleOutcome::Subscribed(send_back, notifs, sub_id)) => {
            assert_eq!(sub_id, SubscriptionId::Str("abc".into()));
            send_back.send(Ok((notifs, sub_id))).unwrap();
        }
        _ => panic!("expected the subscription to start"),
    }
    let (mut notifs, sub_id) = rx.try_recv().unwrap().unwrap().unwrap();
    assert_eq!(sub_id, SubscriptionId::Str("abc".into()));
    assert_eq!(manager.get_request_id_by_subscription_id(&SubscriptionId::Str("abc".into())), Some(1));

    let notif = JsonRpcSubscriptionParams { subscription: SubscriptionId::Str("abc".into()), result: JsonValue::from(7u64) };
    assert!(notify(&mut manager, notif).is_ok());
    assert_eq!(notifs.try_next().unwrap(), Some(JsonValue::from(7u64)));

    let unknown = JsonRpcSubscriptionParams { subscription: SubscriptionId::Num(3), result: JsonValue::Null };
    assert!(process_subscription_response(&mut manager, unknown).is_none());
}

#[test]
fn subscription_answer_that_is_no_id_fails_the_request() {
    let (tx, mut rx) = oneshot::channel::<Result<(mpsc::Receiver<JsonValue>, SubscriptionId), Error>>();
    let mut manager = ClientRequestManager::new();
    manager.insert_pending_subscription(1, 2, tx, "unsub".into()).unwrap();
    let res = process_single_response(&mut manager, response(Id::Number(1), JsonValue::Bool(true)), 4);
    match res {
        Ok(SingleOutcome::Refuse(send_back)) => {
            assert!(send_back.send(Err(Error::InvalidSubscriptionId)).is_ok());
        }
        _ => panic!("expected a refusal"),
    }
    assert!(matches!(rx.try_recv().unwrap().unwrap(), Err(Error::InvalidSubscriptionId)));
}

#[test]
fn subscription_answer_for_a_gone_caller_is_cancelled() {
    let (tx, rx) = oneshot::channel::<Result<(mpsc::Receiver<JsonValue>, SubscriptionId), Error>>();
    drop(rx);
    let mut manager = ClientRequestManager::new();
    manager.insert_pending_subscription(1, 2, tx, "unsub".into()).unwrap();
    let res = process_single_response(&mut manager, response(Id::Number(1), JsonValue::from(42u64)), 4);
    let msg = deliver(&mut manager, 1, res.unwrap()).expect("expected an unsubscribe request");
    assert_eq!(msg.id, 2);
    assert_eq!(msg.raw, r#"{"jsonrpc":"2.0","id":2,"method":"unsub","params":[42]}"#);
    assert!(msg.send_back.is_none());
    assert_eq!(manager.get_request_id_by_subscription_id(&SubscriptionId::Num(42)), None);
}

#[test]
fn full_subscription_is_cancelled() {
    let (tx, mut rx) = oneshot::channel::<Result<(mpsc::Receiver<JsonValue>, SubscriptionId), Error>>();
    let mut manager = ClientRequestManager::new();
    manager.insert_pending_subscription(1, 2, tx, "unsub".into()).unwrap();
    let outcome = process_single_response(&mut manager, response(Id::Number(1), JsonValue::from(42u64)), 0).unwrap();
    assert!(deliver(&mut manager, 1, outcome).is_none());
    let (_notifs, _) = rx.try_recv().unwrap().unwrap().unwrap();
    let notif = || JsonRpcSubscriptionParams { subscription: SubscriptionId::Num(42), result: JsonValue::Null };
    assert!(notify(&mut manager, notif()).is_ok());
    match notify(&mut manager, notif()) {
        Err(Some(msg)) => {
            assert_eq!(msg.id, 2);
            assert_eq!(msg.raw, r#"{"jsonrpc":"2.0","id":2,"method":"unsub","params":[42]}"#);
        }
        _ => panic!("the second notification should not fit"),
    }
    assert_eq!(manager.get_request_id_by_subscription_id(&SubscriptionId::Num(42)), None);
}

#[test]
fn error_response_fails_the_pending_call_with_its_text() {
    let (tx, mut rx) = oneshot::channel::<Result<JsonValue, Error>>();
    let mut manager = ClientRequestManager::new();
    manager.insert_pending_call(3, Some(tx)).unwrap();
    let err = RpcError::new(ErrorObject::from_code(ErrorCode::MethodNotFound), Id::Number(3));
    match process_error_response(&mut manager, err) {
        Ok(ErrorDelivery::Call(send_back, e)) => send_back.send(Err(e)).unwrap(),
        _ => panic!("expected the caller to be told"),
    }
    match rx.try_recv().unwrap().unwrap() {
        Err(Error::Request(text)) => {
            assert_eq!(text, r#"{"jsonrpc":"2.0","error":{"code":-32601,"message":"Method not found"},"id":3}"#)
        }
        _ => panic!("expected the error text"),
    }
    let err = RpcError::new(ErrorObject::from_code(ErrorCode::MethodNotFound), Id::Number(3));
    assert!(matches!(process_error_response(&mut manager, err), Err(Error::InvalidRequestId)));
}

#[test]
fn batch_answers_come_back_in_request_order() {
    let (tx, mut rx) = oneshot::channel::<Result<Vec<JsonValue>, Error>>();
    let mut manager = ClientRequestManager::new();
    manager.insert_pending_batch(vec![1, 2, 3], tx).unwrap();
    let answers = vec![
        batch_answer(Id::Number(3), JsonValue::from(30u64)),
        batch_answer(Id::Number(1), JsonValue::from(10u64)),
        batch_answer(Id::Number(2), JsonValue::from(20u64)),
    ];
    let (send_back, results) = process_batch_response(&mut manager, answers).unwrap();
    assert_eq!(results, vec![JsonValue::from(10u64), JsonValue::from(20u64), JsonValue::from(30u64)]);
    send_back.send(Ok(results)).unwrap();
    let results = rx.try_recv().unwrap().unwrap().unwrap();
    assert_eq!(results, vec![JsonValue::from(10u64), JsonValue::from(20u64), JsonValue::from(30u64)]);
    // The batch is done with.
    let answers = vec![
        batch_answer(Id::Number(1), JsonValue::Null),
        batch_answer(Id::Number(2), JsonValue::Null),
        batch_answer(Id::Number(3), JsonValue::Null),
    ];
    assert!(matches!(process_batch_response(&mut manager, answers), Err(Error::InvalidRequestId)));
}

#[test]
fn unknown_batch_is_refused() {
    let (tx, _rx) = oneshot::channel::<Result<Vec<JsonValue>, Error>>();
    let mut manager = ClientRequestManager::new();
    manager.insert_pending_batch(vec![1, 2], tx).unwrap();
    let answers = vec![batch_answer(Id::Number(1), JsonValue::Null)];
    assert!(matches!(process_batch_response(&mut manager, answers), Err(Error::InvalidRequestId)));
    let answers = vec![batch_answer(Id::Number(1), JsonValue::Null), batch_answer(Id::Null, JsonValue::Null)];
    assert!(matches!(process_batch_response(&mut manager, answers), Err(Error::InvalidRequestId)));
}

#[test]
fn arranging_puts_each_result_at_its_position() {
    let mut order = HashMap::new();
    order.insert(10u64, 1usize);
    order.insert(20u64, 0usize);
    let answer = |id: u64, result: &'static str| JsonRpcResponse { jsonrpc: TwoPointZero, result, id: Id::Number(id) };
    let answers = vec![answer(10, "a"), answer(20, "b"), answer(10, "c")];
    assert_eq!(arrange_batch_results(&order, answers, vec!["-", "-", "-"]), vec!["b", "c", "-"]);
}

#[test]
fn subscription_ids_are_read_from_numbers_then_strings() {
    assert_eq!(subscription_id_from_parts(Some(4), Some("x".into())), Some(SubscriptionId::Num(4)));
    assert_eq!(subscription_id_from_parts(None, Some("x".into())), Some(SubscriptionId::Str("x".into())));
    assert_eq!(subscription_id_from_parts(None, None), None);
}

#[test]
fn unsubscribe_text_escapes_method_and_id() {
    let text = unsubscribe_request_text(7, "un\"sub", &SubscriptionId::Str("a\\b".into()));
    assert_eq!(text, r#"{"jsonrpc":"2.0","id":7,"method":"un\"sub","params":["a\\b"]}"#);
}

#[test]
fn build_unsubscribe_message_needs_an_active_subscription() {
    let mut manager = ClientRequestManager::new();
    assert!(build_unsubscribe_message(&mut manager, 1, SubscriptionId::Num(1)).is_none());
    let (sub_tx, _) = mpsc::channel::<JsonValue>(1);
    manager.insert_subscription(1, 2, SubscriptionId::Num(1), sub_tx, "stop".into()).unwrap();
    let msg = build_unsubscribe_message(&mut manager, 1, SubscriptionId::Num(1)).unwrap();
    assert_eq!(msg.raw, r#"{"jsonrpc":"2.0","id":2,"method":"stop","params":[1]}"#);
    assert!(build_unsubscribe_message(&mut manager, 1, SubscriptionId::Num(1)).is_none());
}

#[test]
fn a_notification_that_is_not_queued_cancels_the_subscription() {
    let (tx, _rx) = oneshot::channel::<Result<(mpsc::Receiver<JsonValue>, SubscriptionId), Error>>();
    let mut manager = ClientRequestManager::new();
    manager.insert_pending_subscription(1, 2, tx, "unsub".into()).unwrap();
    let res = process_single_response(&mut manager, response(Id::Number(1), JsonValue::from(42u64)), 4);
    assert!(deliver(&mut manager, 1, res.unwrap()).is_none());
    assert!(settle_notification(&mut manager, 1, SubscriptionId::Num(42), true).is_ok());
    assert_eq!(manager.get_request_id_by_subscription_id(&SubscriptionId::Num(42)), Some(1));
    match settle_notification(&mut manager, 1, SubscriptionId::Num(42), false) {
        Err(Some(msg)) => assert_eq!(msg.raw, r#"{"jsonrpc":"2.0","id":2,"method":"unsub","params":[42]}"#),
        _ => panic!("expected the unsubscribe request"),
    }
    assert_eq!(manager.get_request_id_by_subscription_id(&SubscriptionId::Num(42)), None);
}

#[test]
fn a_subscription_id_in_use_refuses_the_second_request() {
    let (tx1, _rx1) = oneshot::channel::<Result<(mpsc::Receiver<JsonValue>, SubscriptionId), Error>>();
    let (tx2, mut rx2) = oneshot::channel::<Result<(mpsc::Receiver<JsonValue>, SubscriptionId), Error>>();
    let mut manager = ClientRequestManager::new();
    manager.insert_pending_subscription(1, 2, tx1, "unsub".into()).unwrap();
    manager.insert_pending_subscription(3, 4, tx2, "unsub".into()).unwrap();
    let first = process_single_response(&mut manager, response(Id::Number(1), JsonValue::from(9u64)), 4).unwrap();
    assert!(matches!(first, SingleOutcome::Subscribed(_, _, SubscriptionId::Num(9))));
    let second = process_single_response(&mut manager, response(Id::Number(3), JsonValue::from(9u64)), 4).unwrap();
    assert!(deliver(&mut manager, 3, second).is_none());
    assert!(matches!(rx2.try_recv().unwrap().unwrap(), Err(Error::InvalidSubscriptionId)));
    assert_eq!(manager.get_request_id_by_subscription_id(&SubscriptionId::Num(9)), Some(1));
}

#[test]
fn an_error_response_fails_a_pending_subscription() {
    let (tx, _rx) = oneshot::channel::<Result<(mpsc::Receiver<JsonValue>, SubscriptionId), Error>>();
    let mut manager = ClientRequestManager::new();
    manager.insert_pending_subscription(1, 2, tx, "unsub".into()).unwrap();
    let err = RpcError::new(ErrorObject::from_code(ErrorCode::InvalidParams), Id::Number(1));
    match process_error_response(&mut manager, err) {
        Ok(ErrorDelivery::Subscription(_, Error::Request(text))) => {
            assert_eq!(text, r#"{"jsonrpc":"2.0","error":{"code":-32602,"message":"Invalid params"},"id":1}"#)
        }
        _ => panic!("expected the subscription's caller to be told"),
    }
}

#[test]
fn accepting_a_subscription_uses_the_number_then_the_string() {
    let (tx, _rx) = oneshot::channel::<Result<(mpsc::Receiver<JsonValue>, SubscriptionId), Error>>();
    let mut manager = ClientRequestManager::new();
    manager.insert_pending_subscription(5, 6, tx, "unsub".into()).unwrap();
    let res = accept_subscription(&mut manager, 5, None, Some("s1".into()), 4).unwrap();
    assert!(matches!(res, SingleOutcome::Subscribed(_, _, SubscriptionId::Str(ref s)) if s == "s1"));
    assert!(matches!(accept_subscription(&mut manager, 5, Some(1), None, 4), Err(Error::InvalidRequestId)));
}

#[test]
fn json_result_reads_number_and_text() {
    let (value, number, text) = JsonResult::new(JsonValue::from(42u64)).into_parts();
    assert_eq!(value, JsonValue::from(42u64));
    assert_eq!(number, Some(42));
    assert_eq!(text, None);
    let (_, number, text) = JsonResult::new(JsonValue::from("abc")).into_parts();
    assert_eq!(number, None);
    assert_eq!(text, Some("abc".to_string()));
    let (_, number, text) = JsonResult::new(JsonValue::from(-3i64)).into_parts();
    assert_eq!(number, None);
    assert_eq!(text, None);
}
