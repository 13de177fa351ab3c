use futures_channel::mpsc;
use jsonrpsee::types::v2::error::{ErrorCode, ErrorObject};
use jsonrpsee::types::v2::params::Id;
use jsonrpsee::utils::helpers::{
    collect_batch_response, error_answer, invalid_subscription_type_answer, prepare_error, response_text,
    send_error, send_response, subscription_failed_answer, subscription_id_from_random, subscription_message,
    subscription_started_answer, unknown_subscription_answer, unsubscribed_answer,
};

#[test]
fn batch_responses_are_joined_in_brackets() {
    assert_eq!(collect_batch_response(vec![]), "[]");
    assert_eq!(collect_batch_response(vec!["1".into()]), "[1]");
    assert_eq!(collect_batch_response(vec!["{\"a\":1}".into(), "2".into(), "3".into()]), "[{\"a\":1},2,3]");
}

#[test]
fn unreadable_requests_get_parse_or_invalid_request_errors() {
    assert_eq!(prepare_error(Some(Id::Number(3))), (Id::Number(3), ErrorCode::InvalidRequest));
    assert_eq!(prepare_error(None), (Id::Null, ErrorCode::ParseError));
}

#[test]
fn answers_are_framed() {
    assert_eq!(
        error_answer(ErrorCode::ServerError(-32000), Id::Number(1)),
        r#"{"jsonrpc":"2.0","error":{"code":-32000,"message":"Server error"},"id":1}"#
    );
    assert_eq!(response_text(&Id::Str("x".into()), "true"), r#"{"jsonrpc":"2.0","result":true,"id":"x"}"#);
    assert_eq!(subscription_started_answer(&Id::Number(1), 55), r#"{"jsonrpc":"2.0","result":55,"id":1}"#);
    assert_eq!(unsubscribed_answer(&Id::Number(2)), r#"{"jsonrpc":"2.0","result":"Unsubscribed","id":2}"#);
    assert_eq!(
        subscription_failed_answer(Id::Number(3)),
        r#"{"jsonrpc":"2.0","error":{"code":-32000,"message":"Server error"},"id":3}"#
    );
    assert_eq!(
        invalid_subscription_type_answer(Id::Number(4)),
        r#"{"jsonrpc":"2.0","error":{"code":-32002,"message":"Server error","data":"Invalid subscription ID type, must be integer"},"id":4}"#
    );
    assert_eq!(
        unknown_subscription_answer(Id::Number(5), 99),
        r#"{"jsonrpc":"2.0","error":{"code":-32002,"message":"Server error","data":"Invalid subscription ID=99"},"id":5}"#
    );
    assert_eq!(
        subscription_message("notif", 7, "{\"x\":1}"),
        r#"{"jsonrpc":"2.0","method":"notif","params":{"subscription":7,"result":{"x":1}}}"#
    );
}

#[test]
fn subscription_ids_fit_in_a_javascript_number() {
    assert_eq!(subscription_id_from_random(u64::MAX), (1u64 << 53) - 1);
    assert_eq!(subscription_id_from_random(1u64 << 53), 0);
    assert_eq!(subscription_id_from_random(12345), 12345);
}

#[test]
fn answers_reach_the_sink() {
    let (tx, mut rx) = mpsc::unbounded::<String>();
    assert!(send_response(Id::Number(1), &tx, "\"ok\""));
    assert!(send_error(Id::Null, &tx, ErrorObject::from_code(ErrorCode::ParseError)));
    assert_eq!(rx.try_next().unwrap().unwrap(), r#"{"jsonrpc":"2.0","result":"ok","id":1}"#);
    assert_eq!(
        rx.try_next().unwrap().unwrap(),
        r#"{"jsonrpc":"2.0","error":{"code":-32700,"message":"Parse error"},"id":null}"#
    );
    drop(rx);
    assert!(!send_response(Id::Number(1), &tx, "1"));
}
