use jsonrpsee::types::error::{ErrorCode, ErrorObject};
use jsonrpsee::types::params::{Id, TwoPointZero};
use jsonrpsee::types::response::{Member, PartialResponse, Response, ResponseError, ResponseField, ResponseFields};

#[test]
fn result_and_id_make_a_response() {
    let mut fields = ResponseFields::<u64>::new();
    assert!(fields.accept(ResponseField::Jsonrpc).is_ok());
    fields.jsonrpc = Some(Some(TwoPointZero));
    assert!(fields.accept(ResponseField::Result).is_ok());
    fields.result = Some(9);
    fields.id = Some(Id::Number(1));
    let response = fields.finish().unwrap();
    assert_eq!(response.jsonrpc, Some(TwoPointZero));
    assert!(matches!(response.result_or_error, PartialResponse::Result(9)));
    assert_eq!(response.id, Id::Number(1));
}

#[test]
fn missing_and_repeated_members_are_errors() {
    let fields = ResponseFields::<u64>::new();
    assert_eq!(fields.finish().unwrap_err(), ResponseError::MissingField("id"));

    let mut fields = ResponseFields::<u64>::new();
    fields.id = Some(Id::Null);
    assert_eq!(fields.accept(ResponseField::Id), Err(ResponseError::DuplicateField("id")));
    assert_eq!(fields.finish().unwrap_err(), ResponseError::MissingField("result/error"));

    let mut fields = ResponseFields::<u64>::new();
    fields.id = Some(Id::Null);
    fields.result = Some(1);
    fields.error = Some(ErrorObject::from_code(ErrorCode::InternalError));
    assert_eq!(
        fields.finish().unwrap_err(),
        ResponseError::DuplicateField("result and error are mutually exclusive")
    );
}

#[test]
fn error_without_version_makes_a_response() {
    let mut fields = ResponseFields::<u64>::new();
    fields.id = Some(Id::Str("x".into()));
    fields.error = Some(ErrorObject::from_code(ErrorCode::MethodNotFound));
    let response = fields.finish().unwrap();
    assert_eq!(response.jsonrpc, None);
    assert!(matches!(response.result_or_error, PartialResponse::Error(ref e) if e.code() == -32601));
}

#[test]
fn member_names_are_read_as_fields() {
    assert_eq!(ResponseField::from_name("jsonrpc"), Some(ResponseField::Jsonrpc));
    assert_eq!(ResponseField::from_name("result"), Some(ResponseField::Result));
    assert_eq!(ResponseField::from_name("error"), Some(ResponseField::Error));
    assert_eq!(ResponseField::from_name("id"), Some(ResponseField::Id));
    assert_eq!(ResponseField::from_name("params"), None);
    assert_eq!(ResponseField::from_name("Id"), None);
}

fn read_all(members: Vec<Member<u64>>) -> Result<Response<u64>, ResponseError> {
    let mut fields = ResponseFields::<u64>::new();
    for m in members {
        fields = fields.read(m)?;
    }
    fields.finish()
}

#[test]
fn members_read_in_order_make_a_response() {
    let r = read_all(vec![Member::Id(Id::Number(3)), Member::Result(7), Member::Jsonrpc(Some(TwoPointZero))]).unwrap();
    assert_eq!(r.jsonrpc, Some(TwoPointZero));
    assert_eq!(r.id, Id::Number(3));
    assert!(matches!(r.result_or_error, PartialResponse::Result(7)));
    // A `null` version reads as no version.
    let r = read_all(vec![Member::Jsonrpc(None), Member::Result(7), Member::Id(Id::Null)]).unwrap();
    assert_eq!(r.jsonrpc, None);
    // No version at all.
    let r = read_all(vec![Member::Error(ErrorObject::from_code(ErrorCode::ParseError)), Member::Id(Id::Null)]).unwrap();
    assert_eq!(r.jsonrpc, None);
}

#[test]
fn members_that_make_no_response() {
    assert_eq!(
        read_all(vec![Member::Id(Id::Null), Member::Id(Id::Null), Member::Result(1)]).unwrap_err(),
        ResponseError::DuplicateField("id")
    );
    assert_eq!(
        read_all(vec![Member::Jsonrpc(None), Member::Result(1), Member::Jsonrpc(None), Member::Id(Id::Null)]).unwrap_err(),
        ResponseError::DuplicateField("jsonrpc")
    );
    assert_eq!(read_all(vec![Member::Result(1)]).unwrap_err(), ResponseError::MissingField("id"));
    assert_eq!(read_all(vec![Member::Id(Id::Null)]).unwrap_err(), ResponseError::MissingField("result/error"));
    assert_eq!(
        read_all(vec![
            Member::Id(Id::Null),
            Member::Result(1),
            Member::Error(ErrorObject::from_code(ErrorCode::ParseError)),
        ])
        .unwrap_err(),
        ResponseError::DuplicateField("result and error are mutually exclusive")
    );
}
