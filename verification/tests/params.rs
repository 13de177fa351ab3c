use jsonrpsee::types::error::CallError;
use jsonrpsee::types::params::{Params, ParamsSequence};
use jsonrpsee::types::v2::params::{RpcParams, RpcParamsSequence};
use serde::Deserialize;
use serde_json::Value as JsonValue;

fn next_inner<'a, T: Deserialize<'a>>(seq: &mut ParamsSequence<'a>) -> Option<Result<T, CallError>> {
    let json = match seq.next_start()? {
        Ok(json) => json,
        Err(e) => return Some(Err(e)),
    };
    let mut iter = serde_json::Deserializer::from_str(json).into_iter::<T>();
    match iter.next() {
        None => {
            seq.settle(json, None);
            None
        }
        Some(Ok(value)) => {
            seq.settle(json, Some(Some(iter.byte_offset())));
            Some(Ok(value))
        }
        Some(Err(e)) => {
            seq.settle(json, Some(None));
            Some(Err(CallError::InvalidParams(e.to_string())))
        }
    }
}

fn next<'a, T: Deserialize<'a>>(seq: &mut ParamsSequence<'a>) -> Result<T, CallError> {
    match next_inner(seq) {
        Some(result) => result,
        None => Err(CallError::InvalidParams("No more params".to_string())),
    }
}

fn optional_next<'a, T: Deserialize<'a>>(seq: &mut ParamsSequence<'a>) -> Result<Option<T>, CallError> {
    match next_inner::<Option<T>>(seq) {
        Some(result) => result,
        None => Ok(None),
    }
}

fn parse<'a, T: Deserialize<'a>>(params: &'a Params) -> Result<T, CallError> {
    let text = params.raw().unwrap_or("null");
    serde_json::from_str(text).map_err(|e| CallError::InvalidParams(e.to_string()))
}

fn rpc_next<'a, T: Deserialize<'a>>(seq: &mut RpcParamsSequence<'a>) -> Result<T, ()> {
    match seq.next_start() {
        None => Err(()),
        Some(None) => Err(()),
        Some(Some(json)) => {
            let mut iter = serde_json::Deserializer::from_str(json).into_iter::<T>();
            match iter.next() {
                None => {
                    seq.settle(json, None);
                    Err(())
                }
                Some(Ok(value)) => {
                    seq.settle(json, Some(Some(iter.byte_offset())));
                    Ok(value)
                }
                Some(Err(_)) => {
                    seq.settle(json, Some(None));
                    Err(())
                }
            }
        }
    }
}

#[test]
fn params_parse() {
    let none = Params::new(None);
    assert!(next::<u64>(&mut none.sequence()).is_err());
    assert!(parse::<Option<u64>>(&none).is_ok());
    assert_eq!(none.len_bytes(), 0);

    let array_params = Params::new(Some("[1, 2, 3]"));
    assert_eq!(array_params.len_bytes(), 9);
    let arr: Result<[u64; 3], _> = parse(&array_params);
    assert!(arr.is_ok());

    let mut seq = array_params.sequence();

    assert_eq!(next::<u64>(&mut seq).unwrap(), 1);
    assert_eq!(next::<u64>(&mut seq).unwrap(), 2);
    assert_eq!(next::<u64>(&mut seq).unwrap(), 3);
    assert!(next::<u64>(&mut seq).is_err());

    let array_one = Params::new(Some("[1]"));
    assert_eq!(array_one.len_bytes(), 3);
    let one: Result<[u64; 1], _> = parse(&array_one);
    assert!(one.is_ok());

    let object_params = Params::new(Some(r#"{"beef":99,"dinner":0}"#));
    assert_eq!(object_params.len_bytes(), 22);
    let obj: Result<JsonValue, _> = parse(&object_params);
    assert!(obj.is_ok());
}

#[test]
fn params_parse_empty_json() {
    let array_params = Params::new(Some("[]"));
    let arr: Result<Vec<u64>, _> = parse(&array_params);
    assert!(arr.is_ok());

    let obj_params = Params::new(Some("{}"));
    let obj: Result<JsonValue, _> = parse(&obj_params);
    assert!(obj.is_ok());
}

#[test]
fn params_sequence_borrows() {
    let params = Params::new(Some(r#"["foo", "bar"]"#));
    let mut seq = params.sequence();

    assert_eq!(next::<&str>(&mut seq).unwrap(), "foo");
    assert_eq!(next::<&str>(&mut seq).unwrap(), "bar");
    assert!(next::<&str>(&mut seq).is_err());

    // It's ok to parse the params again.
    let params: (&str, &str) = parse(&params).unwrap();
    assert_eq!(params, ("foo", "bar"));
}

#[test]
fn params_sequence_optional_ignore_empty() {
    let params = Params::new(Some(r#"["foo", "bar"]"#));
    let mut seq = params.sequence();

    assert_eq!(optional_next::<&str>(&mut seq).unwrap(), Some("foo"));
    assert_eq!(optional_next::<&str>(&mut seq).unwrap(), Some("bar"));

    let params = Params::new(Some(r#"[]"#));
    let mut seq = params.sequence();
    assert!(optional_next::<&str>(&mut seq).unwrap().is_none());

    let params = Params::new(Some("   []\t\t"));
    let mut seq = params.sequence();
    assert!(optional_next::<&str>(&mut seq).unwrap().is_none());

    let params = Params::new(Some(r#"{}"#));
    let mut seq = params.sequence();
    assert!(optional_next::<&str>(&mut seq).is_err(), "JSON object not supported by RpcSequence");

    let params = Params::new(Some(r#"[12, "[]", [], {}]"#));
    let mut seq = params.sequence();
    assert_eq!(optional_next::<u64>(&mut seq).unwrap(), Some(12));
    assert_eq!(optional_next::<&str>(&mut seq).unwrap(), Some("[]"));
    assert_eq!(optional_next::<Vec<u8>>(&mut seq).unwrap(), Some(vec![]));
    let empty_object: JsonValue = serde_json::from_str("{}").unwrap();
    assert_eq!(optional_next::<JsonValue>(&mut seq).unwrap(), Some(empty_object));
}

#[test]
fn params_sequence_optional_nesting_works() {
    let nested = Params::new(Some(r#"[1, [2], [3, 4], [[5], [6,7], []], {"named":7}]"#));
    let mut seq = nested.sequence();
    assert_eq!(optional_next::<i8>(&mut seq).unwrap(), Some(1));
    assert_eq!(optional_next::<[i8; 1]>(&mut seq).unwrap(), Some([2]));
    assert_eq!(optional_next::<Vec<u16>>(&mut seq).unwrap(), Some(vec![3, 4]));
    assert_eq!(optional_next::<Vec<Vec<u32>>>(&mut seq).unwrap(), Some(vec![vec![5], vec![6, 7], vec![]]));
    let named: JsonValue = serde_json::from_str(r#"{"named":7}"#).unwrap();
    assert_eq!(optional_next::<JsonValue>(&mut seq).unwrap(), Some(named));
}

#[test]
fn unexpected_sequence_text_is_an_error_with_the_text() {
    let params = Params::new(Some("x1"));
    match params.sequence().next_start() {
        Some(Err(CallError::InvalidParams(msg))) => {
            assert_eq!(msg, "Invalid params. Expected one of '[', ']' or ',' but found \"x1\"")
        }
        _ => panic!(),
    }
}

#[test]
fn params_are_trimmed_and_objects_recognized() {
    let params = Params::new(Some("  {\"a\":1}\n"));
    assert!(params.is_object());
    assert_eq!(params.raw(), Some("{\"a\":1}"));
    assert!(!Params::new(Some("[1]")).is_object());
    assert!(!Params::new(None).is_object());
    assert!(RpcParams::new(Some("  {}")).is_object());
    assert!(!RpcParams::new(Some("[]")).is_object());
}

#[test]
fn params_params_parse() {
    let none = RpcParams::new(None);
    assert!(rpc_next::<u64>(&mut none.sequence()).is_err());

    let array_params = RpcParams::new(Some("[1, 2, 3]"));
    let arr: Result<[u64; 3], _> = serde_json::from_str(array_params.raw().unwrap());
    assert!(arr.is_ok());

    let mut seq = array_params.sequence();

    assert_eq!(rpc_next::<u64>(&mut seq).unwrap(), 1);
    assert_eq!(rpc_next::<u64>(&mut seq).unwrap(), 2);
    assert_eq!(rpc_next::<u64>(&mut seq).unwrap(), 3);
    assert!(rpc_next::<u64>(&mut seq).is_err());

    let bad = RpcParams::new(Some("{\"a\":1}"));
    assert!(rpc_next::<u64>(&mut bad.sequence()).is_err());
}

fn rpc_parse<'a, T: Deserialize<'a>>(params: &'a RpcParams) -> Result<T, ()> {
    let text = params.raw().unwrap_or("null");
    serde_json::from_str(text).map_err(|_| ())
}

#[test]
fn params_params_sequence_borrows() {
    let params = RpcParams::new(Some(r#"["foo", "bar"]"#));
    let mut seq = params.sequence();

    assert_eq!(rpc_next::<&str>(&mut seq).unwrap(), "foo");
    assert_eq!(rpc_next::<&str>(&mut seq).unwrap(), "bar");
    assert!(rpc_next::<&str>(&mut seq).is_err());

    // It's ok to parse the params again.
    let params: (&str, &str) = rpc_parse(&params).unwrap();
    assert_eq!(params, ("foo", "bar"));
}
