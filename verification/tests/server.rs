use jsonrpsee::types::error::Error;
use jsonrpsee::ws_server::server::{
    AllowedValue, Builder, ConnectionVerdict, HandshakeVerdict, Settings, MAX_CONNECTIONS, TEN_MB_SIZE_BYTES,
};

#[test]
fn default_settings() {
    let settings = Settings::default();
    assert_eq!(settings.max_request_body_size, TEN_MB_SIZE_BYTES);
    assert_eq!(settings.max_request_body_size, 10 * 1024 * 1024);
    assert_eq!(settings.max_connections, MAX_CONNECTIONS);
    assert_eq!(settings.max_connections, 100);
}

#[test]
fn allow_lists_check_values_byte_for_byte() {
    let list = AllowedValue::OneOf(vec!["https://example.com".to_string()]);
    assert!(list.verify("Origin", Some(b"https://example.com")).is_ok());
    assert!(list.verify("Origin", None).is_ok());
    match list.verify("Origin", Some(b"https://evil.com")) {
        Err(Error::Request(msg)) => assert_eq!(msg, "Origin denied: https://evil.com"),
        _ => panic!("denied"),
    }
    match list.verify("Host", Some(&[0xff, b'a'])) {
        Err(Error::Request(msg)) => assert_eq!(msg, "Host denied: \u{fffd}a"),
        _ => panic!("denied"),
    }
    assert!(AllowedValue::Any.verify("Host", Some(b"anything")).is_ok());
}

#[test]
fn connections_over_the_limit_are_turned_away() {
    let settings = Settings { max_connections: 2, ..Settings::default() };
    assert_eq!(settings.admit_connection(0, 5), (ConnectionVerdict::Accept { conn_id: 5 }, 6));
    assert_eq!(settings.admit_connection(1, 6), (ConnectionVerdict::Accept { conn_id: 6 }, 7));
    assert_eq!(settings.admit_connection(2, 7), (ConnectionVerdict::Reject { status_code: 429 }, 7));
    assert_eq!(settings.admit_connection(1, usize::MAX), (ConnectionVerdict::Accept { conn_id: usize::MAX }, 0));
}

#[test]
fn handshake_checks_host_first_then_origin() {
    let settings = Settings {
        allowed_hosts: AllowedValue::OneOf(vec!["localhost:9944".to_string()]),
        allowed_origins: AllowedValue::OneOf(vec!["https://a.io".to_string()]),
        ..Settings::default()
    };
    assert!(matches!(settings.verify_handshake(b"localhost:9944", Some(b"https://a.io")), HandshakeVerdict::Accept));
    assert!(matches!(settings.verify_handshake(b"localhost:9944", None), HandshakeVerdict::Accept));
    match settings.verify_handshake(b"other", Some(b"https://b.io")) {
        HandshakeVerdict::Reject { status_code, error: Error::Request(msg) } => {
            assert_eq!(status_code, 403);
            assert_eq!(msg, "Host denied: other");
        }
        _ => panic!("refused"),
    }
    match settings.verify_handshake(b"localhost:9944", Some(b"https://b.io")) {
        HandshakeVerdict::Reject { status_code, error: Error::Request(msg) } => {
            assert_eq!(status_code, 403);
            assert_eq!(msg, "Origin denied: https://b.io");
        }
        _ => panic!("refused"),
    }
}

#[test]
fn builder_refuses_empty_allow_lists() {
    assert!(matches!(Builder::new().set_allowed_origins(vec![]), Err(Error::EmptyAllowList("Origin"))));
    assert!(matches!(Builder::new().set_allowed_hosts(vec![]), Err(Error::EmptyAllowList("Host"))));
}

#[test]
fn builder_collects_the_settings() {
    let builder = Builder::new()
        .max_request_body_size(100)
        .max_connections(3)
        .set_allowed_hosts(vec!["a".to_string()])
        .unwrap()
        .allow_all_hosts()
        .set_allowed_origins(vec!["o".to_string()])
        .unwrap()
        .register_resource("cpu", 10, 1)
        .unwrap()
        .set_middleware(5u8);
    let (settings, resources, middleware) = builder.finish();
    assert_eq!(settings.max_request_body_size, 100);
    assert_eq!(settings.max_connections, 3);
    assert!(matches!(settings.allowed_hosts, AllowedValue::Any));
    assert!(matches!(settings.allowed_origins, AllowedValue::OneOf(ref v) if v == &vec!["o".to_string()]));
    assert_eq!(resources.position_of("cpu"), Some(0));
    assert_eq!(middleware, 5);
}

#[test]
fn builder_refuses_a_resource_twice() {
    let builder = Builder::new().register_resource("cpu", 10, 1).unwrap();
    assert!(matches!(builder.register_resource("cpu", 1, 1), Err(Error::ResourceNameAlreadyTaken("cpu"))));
}
