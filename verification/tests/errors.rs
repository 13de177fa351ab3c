use jsonrpsee::types::error::{
    reject_too_big_request, reject_too_many_subscriptions, CallError, ErrorCode, ErrorObject,
};
use jsonrpsee::types::v2::error::{invalid_subscription_err, ErrorCode as ErrorCodeV2, ErrorObject as ErrorObjectV2};

#[test]
fn error_codes_and_messages() {
    let table = [
        (ErrorCode::ParseError, -32700, "Parse error"),
        (ErrorCode::InvalidRequest, -32600, "Invalid request"),
        (ErrorCode::MethodNotFound, -32601, "Method not found"),
        (ErrorCode::InvalidParams, -32602, "Invalid params"),
        (ErrorCode::InternalError, -32603, "Internal error"),
        (ErrorCode::ServerError(-32000), -32000, "Server error"),
    ];
    for (code, number, message) in table {
        assert_eq!(code.code(), number);
        assert_eq!(code.message(), message);
        assert_eq!(ErrorCode::from(number), code);
    }
}

#[test]
fn v2_error_codes_round_trip() {
    for number in [-32700, -32701, -32600, -32601, -32604, -32602, -32603, -32000, -1, 7] {
        assert_eq!(ErrorCodeV2::from(number).code(), number);
    }
    assert_eq!(ErrorCodeV2::from(-32604), ErrorCodeV2::ServerError(-32604));
    assert_eq!(ErrorCodeV2::ServerIsBusy.code(), -32604);
    assert_eq!(ErrorCodeV2::ServerIsBusy.message(), "Server is busy, try again later");
    assert_eq!(ErrorCodeV2::OversizedRequest.message(), "Request is too big");
    let obj = ErrorObjectV2::from_code(ErrorCodeV2::InvalidParams);
    assert_eq!(obj.message, "Invalid params");
    assert!(obj.data.is_none());
    let sub = invalid_subscription_err(Some("1".into()));
    assert_eq!(sub.code, ErrorCodeV2::ServerError(-32002));
    assert_eq!(sub.message, "Server error");
}

#[test]
fn limit_errors_carry_the_limit() {
    let e = reject_too_many_subscriptions(10);
    assert_eq!(e.code(), -32006);
    assert_eq!(e.message(), "Too many subscriptions on the connection");
    assert_eq!(e.data(), Some("\"Exceeded max limit of 10\""));
    let e = reject_too_big_request(1024);
    assert_eq!(e.code(), -32007);
    assert_eq!(e.message(), "Request is too big");
    assert_eq!(e.data(), Some("\"Exceeded max limit of 1024\""));
}

#[test]
fn call_errors_become_error_objects() {
    let e = CallError::InvalidParams("bad".into()).into_error_object();
    assert_eq!((e.code(), e.message(), e.data()), (-32602, "bad", None));
    let e = CallError::from_std_error("boom".into()).into_error_object();
    assert_eq!((e.code(), e.message()), (-32000, "boom"));
    let custom = ErrorObject::owned(-1, "mine".into(), Some("[1]".into()));
    let e = CallError::Custom(custom).into_error_object();
    assert_eq!((e.code(), e.message(), e.data()), (-1, "mine", Some("[1]")));
    let borrowed = ErrorObject::borrowed(3, "x", None);
    assert_eq!(borrowed.borrow(), borrowed);
}
