use jsonrpsee::types::params::Id;
use jsonrpsee::types::request::{Notification, Request, RequestExtensions};
use serde_json::Value;

#[test]
fn reserved_request_extension_names_are_rejected() {
    let mut request = Request::borrowed("subtract", None, Id::Number(1));

    for name in ["jsonrpc", "id", "method", "params"] {
        let error = request.request_extensions_mut().insert(name, Value::Null).unwrap_err();
        assert_eq!(error.name(), name);
    }
}

#[test]
fn get_reads_what_insert_wrote() {
    let mut ext = RequestExtensions::new();
    ext.insert("vendor", Value::Bool(true)).unwrap();
    ext.insert("trace", Value::from(3)).unwrap();
    assert_eq!(ext.get("vendor"), Some(&Value::Bool(true)));
    assert_eq!(ext.get("trace"), Some(&Value::from(3)));
    assert_eq!(ext.get("id"), None);
    assert!(ext.insert("id", Value::Null).is_err());
    assert_eq!(ext.get("id"), None);
    ext.remove("vendor");
    assert_eq!(ext.get("vendor"), None);
}

#[test]
fn refused_names_leave_members_unchanged() {
    let mut ext = RequestExtensions::new();
    ext.insert("vendor", Value::Bool(true)).unwrap();
    assert!(ext.insert("params", Value::Null).is_err());
    assert_eq!(ext.len(), 1);
    let error = ext.insert("jsonrpc", Value::Null).unwrap_err();
    assert_eq!(error.to_string(), "`jsonrpc` is a reserved JSON-RPC request member");
}

#[test]
fn insert_returns_previous_value_and_keeps_name_order() {
    let mut ext = RequestExtensions::default();
    assert!(ext.is_empty());
    assert_eq!(ext.insert("vendor", Value::Bool(true)).unwrap(), None);
    assert_eq!(ext.insert("traceparent", Value::String("00-ab".into())).unwrap(), None);
    assert_eq!(ext.insert("Zeta", Value::Null).unwrap(), None);
    assert_eq!(ext.insert("vendor", Value::Bool(false)).unwrap(), Some(Value::Bool(true)));
    assert_eq!(ext.len(), 3);
    assert!(!ext.is_empty());

    let names: Vec<&str> = ext.iter().into_iter().map(|(name, _)| name).collect();
    // Byte order, as a `BTreeMap<String, _>` iterates: upper case first.
    assert_eq!(names, vec!["Zeta", "traceparent", "vendor"]);
    let values: Vec<Value> = ext.iter().into_iter().map(|(_, v)| v.clone()).collect();
    assert_eq!(values, vec![Value::Null, Value::String("00-ab".into()), Value::Bool(false)]);
}

#[test]
fn remove_returns_value_once() {
    let mut ext = RequestExtensions::new();
    ext.insert("a", Value::from(1)).unwrap();
    ext.insert("ab", Value::from(2)).unwrap();
    ext.insert("b", Value::from(3)).unwrap();
    assert_eq!(ext.remove("ab"), Some(Value::from(2)));
    assert_eq!(ext.remove("ab"), None);
    assert_eq!(ext.remove("c"), None);
    let names: Vec<&str> = ext.iter().into_iter().map(|(name, _)| name).collect();
    assert_eq!(names, vec!["a", "b"]);
}

#[test]
fn request_accessors() {
    let request = Request::owned("subtract".to_string(), Some(" [42, 23] ".to_string()), Id::Str("x".to_string()));
    assert_eq!(request.method_name(), "subtract");
    assert_eq!(request.id(), Id::Str("x".to_string()));
    assert_eq!(request.params().raw(), Some("[42, 23]"));
    assert!(request.request_extensions().is_none());

    let mut notification = Notification::new("say_hello".to_string(), vec![1u8]);
    assert_eq!(notification.method_name(), "say_hello");
    assert_eq!(notification.params(), &vec![1u8]);
    assert!(notification.request_extensions().is_none());
    notification.request_extensions_mut().insert("vendor", Value::Bool(true)).unwrap();
    assert_eq!(notification.request_extensions().unwrap().len(), 1);
}
