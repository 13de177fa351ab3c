use jsonrpsee::types::client::RequestIdManager;
use jsonrpsee::types::error::Error;

#[test]
fn request_id_guard_works() {
    let manager = RequestIdManager::new(2);
    let _first = manager.next_request_id().unwrap();

    {
        let _second = manager.next_request_ids(13).unwrap();
        assert!(manager.next_request_id().is_err());
        // second dropped here.
    }

    assert!(manager.next_request_id().is_ok());
}

#[test]
fn request_ids_are_consecutive_and_batches_have_the_asked_length() {
    let manager = RequestIdManager::new(10);
    let a = manager.next_request_id().unwrap();
    let b = manager.next_request_ids(3).unwrap();
    let c = manager.next_request_id().unwrap();
    assert_eq!(*a.inner(), 0);
    assert_eq!(b.inner(), &vec![1, 2, 3]);
    assert_eq!(*c.inner(), 4);
}

#[test]
fn zero_limit_refuses_every_request() {
    let manager = RequestIdManager::new(0);
    assert!(matches!(manager.next_request_id(), Err(Error::MaxSlotsExceeded)));
    assert!(matches!(manager.next_request_ids(2), Err(Error::MaxSlotsExceeded)));
}
