use jsonrpsee::types::jsonrpc_v2::{
    internal_error_json, JsonRpcError, JsonRpcErrorParams, JsonRpcNotification, JsonRpcNotificationParams,
    JsonRpcResponse, RpcError as PlainRpcError, TwoPointZero as PlainTwoPointZero,
};
use jsonrpsee::types::request::{is_reserved_member_name, InvalidRequestExtensionName};
use jsonrpsee::types::v2::error::{invalid_subscription_err, ErrorCode, ErrorObject, RpcError};
use jsonrpsee::types::v2::params::{Id, SubscriptionId, TwoPointZero};
use jsonrpsee::types::v2::request::{NotificationSer, ParamsSer, RequestSer};

#[test]
fn serialize_works() {
    let exp = r#"{"jsonrpc":"2.0","error":{"code":-32603,"message":"Internal error"},"id":1337}"#;
    let err = RpcError {
        jsonrpc: TwoPointZero,
        error: ErrorObject { code: ErrorCode::InternalError, message: "Internal error".into(), data: None },
        id: Id::Number(1337),
    };
    let ser = err.to_string();
    assert_eq!(exp, ser);
}

#[test]
fn error_with_data_and_string_id() {
    let err = RpcError::new(invalid_subscription_err(Some("\"vegan\"".into())), Id::Str("a\"b".into()));
    assert_eq!(
        err.to_string(),
        r#"{"jsonrpc":"2.0","error":{"code":-32002,"message":"Server error","data":"vegan"},"id":"a\"b"}"#
    );
    let err = RpcError::new(ErrorObject::from_code(ErrorCode::ParseError), Id::Null);
    assert_eq!(err.to_string(), r#"{"jsonrpc":"2.0","error":{"code":-32700,"message":"Parse error"},"id":null}"#);
}

#[test]
fn id_serialization() {
    let d = vec![Id::Null, Id::Number(0), Id::Number(2), Id::Number(3), Id::Str("3".into()), Id::Str("test".into())];
    let mut serialized = String::from("[");
    for (i, id) in d.iter().enumerate() {
        if i > 0 {
            serialized.push(',');
        }
        id.push_json(&mut serialized);
    }
    serialized.push(']');
    assert_eq!(serialized, r#"[null,0,2,3,"3","test"]"#);
}

#[test]
fn subscription_id_serialization() {
    let mut out = String::new();
    SubscriptionId::Num(u64::MAX).push_json(&mut out);
    out.push(' ');
    SubscriptionId::Str("x\ny".into()).push_json(&mut out);
    assert_eq!(out, "18446744073709551615 \"x\\ny\"");
}

#[test]
fn serialize_call() {
    let method = "subtract";
    let id = Id::Number(1);
    let params = ParamsSer::Array(vec!["42".to_string(), "23".to_string()]);
    let test_vector = vec![
        (r#"{"jsonrpc":"2.0","id":1,"method":"subtract","params":[42,23]}"#, id.clone(), params.clone()),
        (r#"{"jsonrpc":"2.0","id":null,"method":"subtract","params":[42,23]}"#, Id::Null, params),
        (r#"{"jsonrpc":"2.0","id":1,"method":"subtract","params":null}"#, id, ParamsSer::NoParams),
        (r#"{"jsonrpc":"2.0","id":null,"method":"subtract","params":null}"#, Id::Null, ParamsSer::NoParams),
    ];

    for (ser, id, params) in test_vector {
        let request = RequestSer::new(id, method, params).to_json();
        assert_eq!(&request, ser);
    }
}

#[test]
fn serialize_notif() {
    let exp = r#"{"jsonrpc":"2.0","method":"say_hello","params":["hello"]}"#;
    let req = NotificationSer::new("say_hello", ParamsSer::Array(vec!["\"hello\"".to_string()]));
    let ser = req.to_json();
    assert_eq!(exp, ser);
}

#[test]
fn params_serialize() {
    let test_vector = vec![
        ("null", ParamsSer::NoParams),
        ("[42,23]", ParamsSer::Array(vec!["42".into(), "23".into()])),
        (
            r#"{"a":42,"b":null,"c":"aa"}"#,
            ParamsSer::Object(vec![
                ("a".into(), "42".into()),
                ("b".into(), "null".into()),
                ("c".into(), "\"aa\"".into()),
            ]),
        ),
        ("[]", ParamsSer::Array(vec![])),
        ("{}", ParamsSer::Object(vec![])),
    ];
    for (initial_ser, params) in test_vector {
        let mut serialized = String::new();
        params.push_json(&mut serialized);
        assert_eq!(serialized, initial_ser);
    }
}

#[test]
fn plain_interface_objects() {
    let err = JsonRpcError {
        jsonrpc: PlainTwoPointZero,
        error: JsonRpcErrorParams { code: -32601, message: "Method not found" },
        id: Some("7"),
    };
    assert_eq!(err.to_json(), r#"{"jsonrpc":"2.0","error":{"code":-32601,"message":"Method not found"},"id":7}"#);
    let ok = JsonRpcResponse { jsonrpc: PlainTwoPointZero, result: "[1,2]", id: None };
    assert_eq!(ok.to_json(), r#"{"jsonrpc":"2.0","result":[1,2],"id":null}"#);
    let notif = JsonRpcNotification {
        jsonrpc: PlainTwoPointZero,
        method: "sub",
        params: JsonRpcNotificationParams { subscription: 4, result: "true" },
    };
    assert_eq!(notif.to_json(), r#"{"jsonrpc":"2.0","method":"sub","params":{"subscription":4,"result":true}}"#);
    assert_eq!(
        internal_error_json(Some("\"x\"")),
        r#"{"jsonrpc":"2.0","error":{"code":-32603,"message":"Internal error"},"id":"x"}"#
    );
    assert_eq!(PlainRpcError::InvalidParams.to_string(), "invalid params");
    assert_eq!(PlainRpcError::Unknown.to_string(), "unknown rpc error");
}

#[test]
fn reserved_request_extension_names_are_recognized() {
    for name in ["jsonrpc", "id", "method", "params"] {
        assert!(is_reserved_member_name(name));
    }
    assert!(!is_reserved_member_name("ids"));
    assert!(!is_reserved_member_name(""));
    let err = InvalidRequestExtensionName::new("id".to_string());
    assert_eq!(err.name(), "id");
    assert_eq!(err.to_string(), "`id` is a reserved JSON-RPC request member");
}

#[test]
fn version_marker() {
    assert!(TwoPointZero::from_version("2.0").is_some());
    assert!(TwoPointZero::from_version("1.0").is_none());
    assert_eq!(TwoPointZero.as_str(), "2.0");
}
