use jsonrpsee::types::v2::error::ErrorCode;
use jsonrpsee::types::v2::params::Id;
use jsonrpsee::ws_server::dispatch::{message_action, middleware_events, MessageAction, MiddlewareEvent};

fn reply(action: MessageAction<&str>) -> (Id, ErrorCode) {
    match action {
        MessageAction::ReplyError(id, code) => (id, code),
        other => panic!("expected an error reply, got {:?}", other),
    }
}

#[test]
fn garbage_is_a_parse_error() {
    assert_eq!(reply(message_action::<&str>(b"", None, None, None)), (Id::Null, ErrorCode::ParseError));
    assert_eq!(reply(message_action::<&str>(b"x", Some("r"), None, None)), (Id::Null, ErrorCode::ParseError));
    assert_eq!(reply(message_action::<&str>(b"{", None, None, None)), (Id::Null, ErrorCode::ParseError));
}

#[test]
fn objects_run_or_are_invalid_requests() {
    assert!(matches!(message_action(b"{\"m\":1}", Some("call"), None, None), MessageAction::ExecuteSingle("call")));
    assert_eq!(reply(message_action::<&str>(b"{}", None, None, Some(Id::Number(5)))), (Id::Number(5), ErrorCode::InvalidRequest));
}

#[test]
fn batches_run_or_are_refused() {
    match message_action(b"[1]", None, Some(vec!["a", "b"]), None) {
        MessageAction::ExecuteBatch(calls) => assert_eq!(calls, vec!["a", "b"]),
        other => panic!("expected a batch, got {:?}", other),
    }
    assert_eq!(reply(message_action::<&str>(b"[]", None, Some(vec![]), None)), (Id::Null, ErrorCode::InvalidRequest));
    assert_eq!(reply(message_action::<&str>(b"[x", None, None, None)), (Id::Null, ErrorCode::ParseError));
}

#[test]
fn middleware_hears_of_a_message_in_order() {
    let single = MessageAction::ExecuteSingle("call");
    assert_eq!(middleware_events(&single, &vec![true], true), vec![MiddlewareEvent::OnRequest, MiddlewareEvent::OnCall, MiddlewareEvent::OnResult(true), MiddlewareEvent::OnResponse]);
    assert_eq!(middleware_events(&single, &vec![false], true), vec![MiddlewareEvent::OnRequest, MiddlewareEvent::OnCall, MiddlewareEvent::OnResult(false), MiddlewareEvent::OnResponse]);
    let batch = MessageAction::ExecuteBatch(vec!["a", "b"]);
    assert_eq!(
        middleware_events(&batch, &vec![true, false], true),
        vec![MiddlewareEvent::OnRequest, MiddlewareEvent::OnCall, MiddlewareEvent::OnResult(true), MiddlewareEvent::OnCall, MiddlewareEvent::OnResult(false), MiddlewareEvent::OnResponse]
    );
    assert_eq!(middleware_events(&batch, &vec![true, true], false), vec![MiddlewareEvent::OnRequest, MiddlewareEvent::OnCall, MiddlewareEvent::OnResult(true), MiddlewareEvent::OnCall, MiddlewareEvent::OnResult(true)]);
    let error = MessageAction::<&str>::ReplyError(Id::Null, ErrorCode::ParseError);
    assert_eq!(middleware_events(&error, &vec![], true), vec![MiddlewareEvent::OnRequest, MiddlewareEvent::OnResponse]);
}

#[test]
fn a_single_call_always_ends_with_on_response() {
    let single = MessageAction::ExecuteSingle("call");
    assert_eq!(
        middleware_events(&single, &vec![true], false),
        vec![MiddlewareEvent::OnRequest, MiddlewareEvent::OnCall, MiddlewareEvent::OnResult(true), MiddlewareEvent::OnResponse]
    );
}
