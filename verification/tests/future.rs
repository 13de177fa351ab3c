use futures_util::task::noop_waker;
use jsonrpsee::ws_server::future::FutureDriver;
use std::future::{pending, ready, Future};
use std::pin::Pin;
use std::task::Context;

#[test]
fn driving_drops_completed_futures() {
    let waker = noop_waker();
    let mut cx = Context::from_waker(&waker);
    let mut driver: FutureDriver<Pin<Box<dyn Future<Output = ()>>>> = FutureDriver::new();
    assert_eq!(driver.count(), 0);
    driver.add(Box::pin(ready(())));
    driver.add(Box::pin(pending::<()>()));
    driver.add(Box::pin(ready(())));
    assert_eq!(driver.count(), 3);
    assert!(!driver.poll_all(&mut cx));
    assert_eq!(driver.count(), 1);
}

#[test]
fn driver_is_done_when_nothing_is_left() {
    let waker = noop_waker();
    let mut cx = Context::from_waker(&waker);
    let mut driver = FutureDriver::new();
    assert!(driver.poll_all(&mut cx));
    driver.add(ready(()));
    assert!(driver.poll_all(&mut cx));
    assert_eq!(driver.count(), 0);
}

#[test]
fn driving_reports_how_many_completed() {
    let waker = noop_waker();
    let mut cx = Context::from_waker(&waker);
    let mut driver: FutureDriver<Pin<Box<dyn Future<Output = ()>>>> = FutureDriver::new();
    driver.add(Box::pin(pending::<()>()));
    driver.add(Box::pin(ready(())));
    driver.add(Box::pin(ready(())));
    driver.add(Box::pin(pending::<()>()));
    assert_eq!(driver.drive(&mut cx), 2);
    assert_eq!(driver.count(), 2);
    assert_eq!(driver.drive(&mut cx), 0);
    assert_eq!(driver.count(), 2);
}

#[test]
fn settling_a_poll_drops_only_completed_futures() {
    let mut driver: FutureDriver<std::future::Ready<u8>> = FutureDriver::new();
    driver.add(ready(1));
    driver.add(ready(2));
    driver.add(ready(3));
    assert_eq!(driver.settle_poll(0, false), 1);
    assert_eq!(driver.count(), 3);
    assert_eq!(driver.settle_poll(0, true), 0);
    assert_eq!(driver.count(), 2);
    assert_eq!(driver.settle_poll(1, true), 1);
    assert_eq!(driver.count(), 1);
}
