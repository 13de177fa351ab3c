use jsonrpsee::ws_client::transport::{Mode, Target, UrlParse, WsHandshakeError};

fn assert_ws_target(target: Target, host: &str, host_header: &str, mode: Mode, path: &str) {
    assert_eq!(&target.host, host);
    assert_eq!(&target.host_header, host_header);
    assert_eq!(target.mode, mode);
    assert_eq!(&target.path, path);
}

#[test]
fn ws_works() {
    let target = Target::parse("ws://127.0.0.1:9933").unwrap();
    assert_ws_target(target, "127.0.0.1", "127.0.0.1:9933", Mode::Plain, "/");
}

#[test]
fn wss_works() {
    let target = Target::parse("wss://kusama-rpc.polkadot.io:443").unwrap();
    assert_ws_target(target, "kusama-rpc.polkadot.io", "kusama-rpc.polkadot.io:443", Mode::Tls, "/");
}

#[test]
fn faulty_url_scheme() {
    let err = Target::parse("http://kusama-rpc.polkadot.io:443").unwrap_err();
    assert!(matches!(err, WsHandshakeError::Url(_)));
}

#[test]
fn faulty_port() {
    let err = Target::parse("ws://127.0.0.1:-43").unwrap_err();
    assert!(matches!(err, WsHandshakeError::Url(_)));
    let err = Target::parse("ws://127.0.0.1:99999").unwrap_err();
    assert!(matches!(err, WsHandshakeError::Url(_)));
}

#[test]
fn default_port_works() {
    let target = Target::parse("ws://127.0.0.1").unwrap();
    assert_ws_target(target, "127.0.0.1", "127.0.0.1:80", Mode::Plain, "/");
}

#[test]
fn url_with_path_works() {
    let target = Target::parse("wss://127.0.0.1/my-special-path").unwrap();
    assert_ws_target(target, "127.0.0.1", "127.0.0.1:443", Mode::Tls, "/my-special-path");
}

#[test]
fn url_errors_carry_their_message() {
    match Target::parse("http://example.com") {
        Err(WsHandshakeError::Url(m)) => assert_eq!(m, "URL scheme not supported, expects 'ws' or 'wss'"),
        _ => panic!(),
    }
    match Target::parse("ws://127.0.0.1:99999") {
        Err(WsHandshakeError::Url(m)) => assert_eq!(m, "Invalid URL: invalid port number"),
        _ => panic!(),
    }
    match Target::parse("/relative") {
        Err(WsHandshakeError::Url(m)) => assert_eq!(m, "Invalid URL: relative URL without a base"),
        _ => panic!(),
    }
}

#[test]
fn parts_without_host_or_port_are_refused() {
    let no_host = UrlParse::Parsed { scheme: "ws".into(), host: None, port: Some(80), path: "/".into() };
    match Target::from_url(no_host) {
        Err(WsHandshakeError::Url(m)) => assert_eq!(m, "No host in URL"),
        _ => panic!(),
    }
    let no_port = UrlParse::Parsed { scheme: "wss".into(), host: Some("h".into()), port: None, path: "/".into() };
    match Target::from_url(no_port) {
        Err(WsHandshakeError::Url(m)) => assert_eq!(m, "No port number in URL"),
        _ => panic!(),
    }
}

#[test]
fn redirects_to_relative_locations_change_only_the_path() {
    let mut target = Target::parse("ws://127.0.0.1:9933").unwrap();
    target.follow_redirect("/elsewhere".to_string()).unwrap();
    assert_ws_target(target, "127.0.0.1", "127.0.0.1:9933", Mode::Plain, "/elsewhere");
}

#[test]
fn redirects_to_absolute_locations_change_the_target() {
    let mut target = Target::parse("ws://127.0.0.1:9933").unwrap();
    target.follow_redirect("wss://example.com:8443/x".to_string()).unwrap();
    assert_ws_target(target, "example.com", "example.com:8443", Mode::Tls, "/x");
    let mut target = Target::parse("ws://127.0.0.1:9933").unwrap();
    assert!(target.follow_redirect("ftp://example.com/".to_string()).is_err());
    assert_ws_target(target, "127.0.0.1", "127.0.0.1:9933", Mode::Plain, "/");
}
