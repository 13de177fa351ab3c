use futures_channel::{mpsc, oneshot};
use jsonrpsee::types::error::Error;
use jsonrpsee::types::v2::params::SubscriptionId;
use jsonrpsee::ws_client::helpers::ClientRequestManager as RequestManager;
use jsonrpsee::ws_client::manager::RequestStatus;
use serde_json::Value as JsonValue;

#[test]
fn insert_remove_pending_request_works() {
    let (request_tx, _) = oneshot::channel::<Result<JsonValue, Error>>();

    let mut manager = RequestManager::new();
    assert!(manager.insert_pending_call(0, Some(request_tx)).is_ok());
    assert!(manager.complete_pending_call(0).is_some());
}

#[test]
fn insert_remove_subscription_works() {
    let (pending_sub_tx, _) = oneshot::channel::<Result<(mpsc::Receiver<JsonValue>, SubscriptionId), Error>>();
    let (sub_tx, _) = mpsc::channel::<JsonValue>(1);
    let mut manager = RequestManager::new();
    assert!(manager.insert_pending_subscription(1, 2, pending_sub_tx, "unsubscribe_method".into()).is_ok());
    let (unsub_req_id, _send_back_oneshot, unsubscribe_method) = manager.complete_pending_subscription(1).unwrap();
    assert_eq!(unsub_req_id, 2);
    assert!(manager
        .insert_subscription(1, 2, SubscriptionId::Str("uniq_id_from_server".to_string()), sub_tx, unsubscribe_method)
        .is_ok());

    assert!(manager.as_subscription_mut(&1).is_some());
    assert!(manager.remove_subscription(1, SubscriptionId::Str("uniq_id_from_server".to_string())).is_some());
}

#[test]
fn insert_subscription_with_same_sub_and_unsub_id_should_err() {
    let (tx1, _) = oneshot::channel::<Result<(mpsc::Receiver<JsonValue>, SubscriptionId), Error>>();
    let (tx2, _) = oneshot::channel::<Result<(mpsc::Receiver<JsonValue>, SubscriptionId), Error>>();
    let (tx3, _) = oneshot::channel::<Result<(mpsc::Receiver<JsonValue>, SubscriptionId), Error>>();
    let (tx4, _) = oneshot::channel::<Result<(mpsc::Receiver<JsonValue>, SubscriptionId), Error>>();
    let mut manager = RequestManager::new();
    assert!(manager.insert_pending_subscription(1, 1, tx1, "unsubscribe_method".into()).is_err());
    assert!(manager.insert_pending_subscription(0, 1, tx2, "unsubscribe_method".into()).is_ok());
    assert!(
        manager.insert_pending_subscription(99, 0, tx3, "unsubscribe_method".into()).is_err(),
        "unsub request ID already occupied"
    );
    assert!(
        manager.insert_pending_subscription(99, 1, tx4, "unsubscribe_method".into()).is_err(),
        "sub request ID already occupied"
    );
}

#[test]
fn pending_method_call_faulty() {
    let (request_tx1, _) = oneshot::channel::<Result<JsonValue, Error>>();
    let (request_tx2, _) = oneshot::channel::<Result<JsonValue, Error>>();
    let (pending_sub_tx, _) = oneshot::channel::<Result<(mpsc::Receiver<JsonValue>, SubscriptionId), Error>>();
    let (sub_tx, _) = mpsc::channel::<JsonValue>(1);

    let mut manager = RequestManager::new();
    assert!(manager.insert_pending_call(0, Some(request_tx1)).is_ok());
    assert!(manager.insert_pending_call(0, Some(request_tx2)).is_err());
    assert!(manager.insert_pending_subscription(0, 1, pending_sub_tx, "beef".to_string()).is_err());
    assert!(manager.insert_subscription(0, 99, SubscriptionId::Num(137), sub_tx, "bibimbap".to_string()).is_err());

    assert!(manager.remove_subscription(0, SubscriptionId::Num(137)).is_none());
    assert!(manager.complete_pending_subscription(0).is_none());
    assert!(manager.complete_pending_call(0).is_some());
}

#[test]
fn pending_subscription_faulty() {
    let (request_tx, _) = oneshot::channel::<Result<JsonValue, Error>>();
    let (pending_sub_tx1, _) = oneshot::channel::<Result<(mpsc::Receiver<JsonValue>, SubscriptionId), Error>>();
    let (pending_sub_tx2, _) = oneshot::channel::<Result<(mpsc::Receiver<JsonValue>, SubscriptionId), Error>>();
    let (sub_tx, _) = mpsc::channel::<JsonValue>(1);

    let mut manager = RequestManager::new();
    assert!(manager.insert_pending_subscription(99, 100, pending_sub_tx1, "beef".to_string()).is_ok());
    assert!(manager.insert_pending_call(99, Some(request_tx)).is_err());
    assert!(manager.insert_pending_subscription(99, 1337, pending_sub_tx2, "vegan".to_string()).is_err());

    assert!(manager.insert_subscription(99, 100, SubscriptionId::Num(0), sub_tx, "bibimbap".to_string()).is_err());

    assert!(manager.remove_subscription(99, SubscriptionId::Num(0)).is_none());
    assert!(manager.complete_pending_call(99).is_none());
    assert!(manager.complete_pending_subscription(99).is_some());
}

#[test]
fn active_subscriptions_faulty() {
    let (request_tx, _) = oneshot::channel::<Result<JsonValue, Error>>();
    let (pending_sub_tx, _) = oneshot::channel::<Result<(mpsc::Receiver<JsonValue>, SubscriptionId), Error>>();
    let (sub_tx1, _) = mpsc::channel::<JsonValue>(1);
    let (sub_tx2, _) = mpsc::channel::<JsonValue>(1);

    let mut manager = RequestManager::new();

    assert!(manager.insert_subscription(3, 4, SubscriptionId::Num(0), sub_tx1, "bibimbap".to_string()).is_ok());
    assert!(manager.insert_subscription(3, 4, SubscriptionId::Num(1), sub_tx2, "bibimbap".to_string()).is_err());
    assert!(manager.insert_pending_subscription(3, 4, pending_sub_tx, "beef".to_string()).is_err());
    assert!(manager.insert_pending_call(3, Some(request_tx)).is_err());

    assert!(manager.remove_subscription(3, SubscriptionId::Num(7)).is_none());
    assert!(manager.complete_pending_call(3).is_none());
    assert!(manager.complete_pending_subscription(3).is_none());
    assert!(manager.remove_subscription(3, SubscriptionId::Num(1)).is_none());
    assert!(manager.remove_subscription(3, SubscriptionId::Num(0)).is_some());
}

#[test]
fn request_status_follows_the_request() {
    let (pending_sub_tx, _) = oneshot::channel::<Result<(mpsc::Receiver<JsonValue>, SubscriptionId), Error>>();
    let mut manager = RequestManager::new();
    assert_eq!(manager.request_status(&5), RequestStatus::Invalid);
    assert!(manager.insert_pending_subscription(5, 6, pending_sub_tx, "unsub".into()).is_ok());
    assert_eq!(manager.request_status(&5), RequestStatus::PendingSubscription);
    assert_eq!(manager.request_status(&6), RequestStatus::PendingMethodCall);
    let (sub_tx, _) = mpsc::channel::<JsonValue>(1);
    let (_, _, method) = manager.complete_pending_subscription(5).unwrap();
    assert!(manager.insert_subscription(5, 6, SubscriptionId::Num(9), sub_tx, method).is_ok());
    assert_eq!(manager.request_status(&5), RequestStatus::Subscription);
    assert_eq!(manager.get_request_id_by_subscription_id(&SubscriptionId::Num(9)), Some(5));
}

#[test]
fn batches_are_found_by_their_ids_in_any_order() {
    let (batch_tx, _) = oneshot::channel::<Result<Vec<JsonValue>, Error>>();
    let mut manager = RequestManager::new();
    assert!(manager.insert_pending_batch(vec![7, 3, 5], batch_tx).is_ok());
    assert!(manager.complete_pending_batch(vec![1, 2]).is_none());
    let state = manager.complete_pending_batch(vec![5, 7, 3]).unwrap();
    assert_eq!(state.order.get(&7), Some(&0));
    assert_eq!(state.order.get(&3), Some(&1));
    assert_eq!(state.order.get(&5), Some(&2));
    assert!(manager.complete_pending_batch(vec![3, 5, 7]).is_none());
}

#[test]
fn notification_handlers_are_not_subscriptions() {
    let (sub_tx, _) = mpsc::channel::<JsonValue>(1);
    let mut manager = RequestManager::new();
    assert!(manager.insert_notification_handler(8, SubscriptionId::Str("m".into()), sub_tx).is_ok());
    assert!(manager.as_notification_handler_mut(&8).is_some());
    assert!(manager.as_subscription_mut(&8).is_none());
    assert_eq!(manager.request_status(&8), RequestStatus::Subscription);
}
