use jsonrpsee::types::v2::params::Id;
use jsonrpsee::utils::subscribers::Subscribers;

#[test]
fn subscribe_adds_the_masked_id_and_answers_it() {
    let mut subs: Subscribers<&str> = Subscribers::new();
    let random = u64::MAX;
    let (sub_id, answer) = subs.subscribe(1, &Id::Number(7), random, "sink");
    assert_eq!(sub_id, (1u64 << 53) - 1);
    assert_eq!(answer, format!(r#"{{"jsonrpc":"2.0","result":{},"id":7}}"#, sub_id));
    assert!(subs.contains(1, sub_id));
    assert!(!subs.contains(2, sub_id));
}

#[test]
fn unsubscribe_twice_should_indicate_error() {
    let mut subs: Subscribers<()> = Subscribers::new();
    let (sub_id, _) = subs.subscribe(0, &Id::Number(1), 42, ());
    assert_eq!(sub_id, 42);
    let first = subs.unsubscribe(0, Id::Number(2), Some(sub_id));
    assert_eq!(first, r#"{"jsonrpc":"2.0","result":"Unsubscribed","id":2}"#);
    assert!(!subs.contains(0, sub_id));
    let second = subs.unsubscribe(0, Id::Number(3), Some(sub_id));
    assert_eq!(
        second,
        r#"{"jsonrpc":"2.0","error":{"code":-32002,"message":"Server error","data":"Invalid subscription ID=42"},"id":3}"#
    );
}

#[test]
fn unsubscribe_needs_an_integer_id_on_the_same_connection() {
    let mut subs: Subscribers<()> = Subscribers::new();
    subs.subscribe(5, &Id::Number(1), 9, ());
    let answer = subs.unsubscribe(5, Id::Number(2), None);
    assert!(answer.contains("Invalid subscription ID type, must be integer"));
    assert!(subs.contains(5, 9));
    let other_connection = subs.unsubscribe(6, Id::Number(3), Some(9));
    assert!(other_connection.contains("Invalid subscription ID=9"));
    assert!(subs.contains(5, 9));
    assert_eq!(subs.remove(5, 9), Some(()));
    assert_eq!(subs.remove(5, 9), None);
    assert_eq!(subs.insert(5, 9, ()), None);
    assert_eq!(subs.insert(5, 9, ()), Some(()));
}
