use jsonrpsee::types::error::{ErrorCode, ErrorObject};
use jsonrpsee::types::jsonrpc::wrapped::batches::{BatchesEvent, BatchesState};
use jsonrpsee::types::jsonrpc::{Call, MethodCall, Notification, Output, Request, Response};
use jsonrpsee::types::params::Id;

fn notification(method: &str) -> Notification {
    Notification { method: method.to_string(), params: None }
}

fn method_call(method: &str, params: Option<&str>, id: u64) -> MethodCall {
    MethodCall { method: method.to_string(), params: params.map(|p| p.to_string()), id: Id::Number(id) }
}

#[test]
fn basic_notification() {
    let notif = notification("foo");

    let mut state = BatchesState::new();
    assert!(state.next_event().is_none());
    state.inject(Request::Single(Call::Notification(notif.clone())), ());
    match state.next_event() {
        Some(BatchesEvent::Notification { ref notification, .. })
            if notification.method == notif.method && notification.params == notif.params => {}
        _ => panic!(),
    }
    assert!(state.next_event().is_none());
}

#[test]
fn basic_request() {
    let call = method_call("foo", Some("{\"test\":\"foo\"}"), 123);

    let mut state = BatchesState::new();
    assert!(state.next_event().is_none());
    state.inject(Request::Single(Call::MethodCall(call)), 8889);

    let rq_id = match state.next_event() {
        Some(BatchesEvent::Request(rq)) => {
            assert_eq!(rq.method(), "foo");
            assert_eq!(
                {
                    let params: serde_json::Value = serde_json::from_str(rq.params().unwrap()).unwrap();
                    let v: String = params["test"].as_str().unwrap().to_string();
                    v
                },
                "foo"
            );
            assert_eq!(rq.request_id(), &Id::Number(123));
            rq.id()
        }
        _ => panic!(),
    };

    assert!(state.next_event().is_none());

    assert_eq!(state.request_by_id(rq_id).unwrap().method(), "foo");
    state.request_by_id(rq_id).unwrap().set_response(Err(ErrorObject::from_code(ErrorCode::MethodNotFound)));
    assert!(state.request_by_id(rq_id).is_none());

    match state.next_event() {
        Some(BatchesEvent::ReadyToSend { response, user_param }) => {
            assert_eq!(user_param, 8889);
            match response {
                Response::Single(Output::Failure { id, .. }) => {
                    assert_eq!(id, Id::Number(123));
                }
                _ => panic!(),
            }
        }
        _ => panic!(),
    };
}

#[test]
fn empty_batch() {
    let mut state = BatchesState::new();
    assert!(state.next_event().is_none());
    state.inject(Request::Batch(Vec::new()), ());
    assert!(state.next_event().is_none());
}

#[test]
fn batch_of_notifs() {
    let notif1 = notification("foo");
    let notif2 = notification("bar");

    let mut state = BatchesState::new();
    assert!(state.next_event().is_none());
    state.inject(Request::Batch(vec![Call::Notification(notif1.clone()), Call::Notification(notif2.clone())]), 2);

    match state.next_event() {
        Some(BatchesEvent::Notification { ref notification, ref user_param })
            if notification.method == notif1.method && **user_param == 2 => {}
        _ => panic!(),
    }

    match state.next_event() {
        Some(BatchesEvent::Notification { ref notification, ref user_param })
            if notification.method == notif2.method && **user_param == 2 => {}
        _ => panic!(),
    }

    assert!(state.next_event().is_none());
}

#[test]
fn batch_answers_keep_call_order() {
    let mut state = BatchesState::new();
    state.inject(
        Request::Batch(vec![
            Call::MethodCall(method_call("a", None, 1)),
            Call::Invalid { id: Id::Number(7) },
            Call::Notification(notification("n")),
            Call::MethodCall(method_call("b", Some("[1]"), 2)),
        ]),
        "user",
    );

    let first = match state.next_event() {
        Some(BatchesEvent::Request(rq)) => {
            assert_eq!(rq.method(), "a");
            assert!(rq.params().is_none());
            rq.id()
        }
        _ => panic!(),
    };
    match state.next_event() {
        Some(BatchesEvent::Notification { notification, .. }) => assert_eq!(notification.method, "n"),
        _ => panic!(),
    }
    let second = match state.next_event() {
        Some(BatchesEvent::Request(rq)) => {
            assert_eq!(rq.params(), Some("[1]"));
            rq.id()
        }
        _ => panic!(),
    };
    assert!(state.next_event().is_none());

    // Answer out of order; the response still follows the order of the calls.
    state.request_by_id(second).unwrap().set_response(Ok("\"two\"".to_string()));
    assert!(state.next_event().is_none());
    state.request_by_id(first).unwrap().set_response(Ok("1".to_string()));

    match state.next_event() {
        Some(BatchesEvent::ReadyToSend { response: Response::Batch(outs), user_param }) => {
            assert_eq!(user_param, "user");
            assert_eq!(outs.len(), 3);
            match &outs[0] {
                Output::Success { result, id } => {
                    assert_eq!(result, "1");
                    assert_eq!(*id, Id::Number(1));
                }
                _ => panic!(),
            }
            match &outs[1] {
                Output::Failure { error, id } => {
                    assert_eq!(error.code(), -32600);
                    assert_eq!(*id, Id::Number(7));
                }
                _ => panic!(),
            }
            match &outs[2] {
                Output::Success { result, id } => {
                    assert_eq!(result, "\"two\"");
                    assert_eq!(*id, Id::Number(2));
                }
                _ => panic!(),
            }
        }
        _ => panic!(),
    }
    assert!(state.next_event().is_none());
    assert!(state.batches().is_empty());
}

#[test]
fn freed_entries_are_reused() {
    let mut state = BatchesState::new();
    state.inject(Request::Single(Call::MethodCall(method_call("a", None, 1))), 10);
    state.inject(Request::Single(Call::MethodCall(method_call("b", None, 2))), 20);
    let a = match state.next_event() {
        Some(BatchesEvent::Request(rq)) => rq.id(),
        _ => panic!(),
    };
    let b = match state.next_event() {
        Some(BatchesEvent::Request(rq)) => rq.id(),
        _ => panic!(),
    };
    assert_ne!(a, b);
    let params: Vec<i32> = state.batches().into_iter().copied().collect();
    assert_eq!(params, vec![10, 20]);

    state.request_by_id(a).unwrap().set_response(Ok("null".to_string()));
    match state.next_event() {
        Some(BatchesEvent::ReadyToSend { user_param, .. }) => assert_eq!(user_param, 10),
        _ => panic!(),
    }
    let params: Vec<i32> = state.batches().into_iter().copied().collect();
    assert_eq!(params, vec![20]);

    // The freed entry is used again by the next request.
    state.inject(Request::Single(Call::Invalid { id: Id::Null }), 30);
    let params: Vec<i32> = state.batches().into_iter().copied().collect();
    assert_eq!(params, vec![30, 20]);
    // The first scan hands out the invalid call's slot; the one after it
    // finds the request ready.
    assert!(state.next_event().is_none());
    match state.next_event() {
        Some(BatchesEvent::ReadyToSend { response: Response::Single(Output::Failure { error, id }), user_param }) => {
            assert_eq!(user_param, 30);
            assert_eq!(id, Id::Null);
            assert_eq!(error.code(), -32600);
        }
        _ => panic!(),
    }
    assert!(state.next_event().is_none());
    let mut rq = state.request_by_id(b).unwrap();
    assert_eq!(*rq.user_param(), 20);
}
