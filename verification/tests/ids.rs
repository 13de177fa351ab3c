use jsonrpsee::types::params::{parse_u64_str, Id, SubscriptionId};

#[test]
fn id_accessors() {
    assert_eq!(Id::Number(3).as_number(), Some(&3));
    assert_eq!(Id::Str("a".into()).as_str(), Some("a"));
    assert_eq!(Id::Null.as_null(), Some(()));
    assert_eq!(Id::Null.as_number(), None);
    assert_eq!(Id::Number(1).into_owned(), Id::Number(1));
}

#[test]
fn string_ids_holding_numbers_parse_as_numbers() {
    assert_eq!(Id::Str("42".into()).try_parse_inner_as_number(), Some(42));
    assert_eq!(Id::Number(7).try_parse_inner_as_number(), Some(7));
    assert_eq!(Id::Str("4x".into()).try_parse_inner_as_number(), None);
    assert_eq!(Id::Null.try_parse_inner_as_number(), None);
    assert_eq!(parse_u64_str("18446744073709551615"), Some(u64::MAX));
    assert_eq!(parse_u64_str("18446744073709551616"), None);
    assert_eq!(parse_u64_str(""), None);
}

#[test]
fn subscription_ids_from_numbers_and_strings() {
    assert_eq!(SubscriptionId::from(5u64), SubscriptionId::Num(5));
    assert_eq!(SubscriptionId::from("x".to_string()), SubscriptionId::Str("x".into()));
    assert_eq!(SubscriptionId::Num(5).into_owned(), SubscriptionId::Num(5));
}
