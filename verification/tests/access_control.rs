use jsonrpsee::utils::access_control::{
    AccessControl, AccessControlAllowHeaders, AccessControlAllowOrigin, AccessControlBuilder, AllowHosts, Host,
};

#[test]
fn default_access_control_allows_everything() {
    let ac = AccessControl::default();
    assert_eq!(ac.allow_hosts, AllowHosts::Any);
    assert!(ac.cors_allow_origin.is_none());
    assert!(ac.cors_max_age.is_none());
    assert_eq!(ac.cors_allow_headers, AccessControlAllowHeaders::Any);
    assert!(!ac.continue_on_invalid_cors);
}

#[test]
fn builder_accumulates_lists() {
    let ac = AccessControlBuilder::new()
        .allow_host(Host("a:1".into()))
        .allow_host(Host("b".into()))
        .cors_allow_origin(AccessControlAllowOrigin::Null)
        .cors_allow_origin(AccessControlAllowOrigin::Value("https://x".into()))
        .cors_allow_header("X-A".into())
        .cors_max_age(60)
        .continue_on_invalid_cors(true)
        .build();
    assert_eq!(ac.allow_hosts, AllowHosts::Only(vec![Host("a:1".into()), Host("b".into())]));
    assert_eq!(
        ac.cors_allow_origin,
        Some(vec![AccessControlAllowOrigin::Null, AccessControlAllowOrigin::Value("https://x".into())])
    );
    assert_eq!(ac.cors_allow_headers, AccessControlAllowHeaders::Only(vec!["X-A".to_string()]));
    assert_eq!(ac.cors_max_age, Some(60));
    assert!(ac.continue_on_invalid_cors);
}
