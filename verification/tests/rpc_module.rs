use jsonrpsee::types::error::Error;
use jsonrpsee::types::v2::params::Id;
use jsonrpsee::utils::resource_limiting::Resources;
use jsonrpsee::utils::rpc_module::{CallPlan, MethodCallback, MethodResourcesBuilder, Methods, RpcModule};

fn callback() -> MethodCallback<u32> {
    MethodCallback::new(0)
}

#[test]
fn rpc_modules_with_different_contexts_can_be_merged() {
    let cx = Vec::<u8>::new();
    let mut mod1 = RpcModule::new(cx);
    mod1.register_method("bla with Vec context", callback()).unwrap();
    let mut mod2 = RpcModule::new(String::new());
    mod2.register_method("bla with String context", callback()).unwrap();

    mod1.merge(mod2).unwrap();

    assert!(mod1.method("bla with Vec context").is_some());
    assert!(mod1.method("bla with String context").is_some());
}

#[test]
fn rpc_register_alias() {
    let mut module = RpcModule::new(());

    module.register_method("hello_world", callback()).unwrap();
    module.register_alias("hello_foobar", "hello_world").unwrap();

    assert!(module.method("hello_world").is_some());
    assert!(module.method("hello_foobar").is_some());
}

#[test]
fn rpc_context_modules_can_register_subscriptions() {
    let cx = ();
    let mut cxmodule = RpcModule::new(cx);
    let _subscription = cxmodule.register_subscription("hi", "goodbye", callback(), callback());

    assert!(cxmodule.method("hi").is_some());
    assert!(cxmodule.method("goodbye").is_some());
}

#[test]
fn subscription_names_must_differ_and_be_free() {
    let mut module = RpcModule::new(());
    assert!(matches!(
        module.register_subscription("same", "same", callback(), callback()),
        Err(Error::SubscriptionNameConflict(n)) if n == "same"
    ));
    assert!(module.methods().method_names().is_empty());
    module.register_method("taken", callback()).unwrap();
    assert!(matches!(
        module.register_subscription("sub", "taken", callback(), callback()),
        Err(Error::MethodAlreadyRegistered(n)) if n == "taken"
    ));
    assert!(module.method("sub").is_none());
}

#[test]
fn registering_a_taken_name_or_aliasing_nothing_fails() {
    let mut module = RpcModule::new(());
    module.register_method("a", callback()).unwrap();
    assert!(matches!(module.register_method("a", callback()), Err(Error::MethodAlreadyRegistered(n)) if n == "a"));
    assert!(matches!(module.register_alias("b", "missing"), Err(Error::MethodNotFound(n)) if n == "missing"));
    assert!(matches!(module.register_alias("a", "a"), Err(Error::MethodAlreadyRegistered(_))));
}

#[test]
fn merging_overlapping_modules_fails_and_changes_nothing() {
    let mut mod1 = RpcModule::new(());
    mod1.register_method("x", callback()).unwrap();
    let mut mod2 = RpcModule::new(());
    mod2.register_method("x", callback()).unwrap();
    mod2.register_method("y", callback()).unwrap();
    assert!(matches!(mod1.merge(mod2), Err(Error::MethodAlreadyRegistered(_))));
    assert!(mod1.method("y").is_none());
    assert_eq!(mod1.methods().method_names(), vec!["x"]);
}

fn resources_with_cpu(capacity: u16, default: u16) -> Resources {
    let mut resources = Resources::new();
    resources.register("cpu", capacity, default).unwrap();
    resources
}

#[test]
fn plan_call_claims_runs_or_refuses() {
    let mut methods = Methods::new();
    let resources_of = MethodResourcesBuilder::new().resource("cpu", 2).unwrap().build();
    let mut cb = MethodCallback::new(7u32);
    cb.set_resources(resources_of);
    methods.verify_and_insert("heavy", cb).unwrap();
    methods.verify_and_insert("light", MethodCallback::new(8u32)).unwrap();
    let mut resources = resources_with_cpu(3, 1);
    let methods = methods.initialize_resources(&resources).unwrap();

    match methods.plan_call(Id::Number(1), "nope", &mut resources) {
        CallPlan::NotFound { answer } => {
            assert_eq!(answer, r#"{"jsonrpc":"2.0","error":{"code":-32601,"message":"Method not found"},"id":1}"#)
        }
        _ => panic!("unknown method"),
    }
    let guard = match methods.plan_call(Id::Number(2), "heavy", &mut resources) {
        CallPlan::Run { name, callback, guard } => {
            assert_eq!(name, "heavy");
            assert_eq!(*callback, 7);
            guard
        }
        _ => panic!("should run"),
    };
    match methods.plan_call(Id::Number(3), "heavy", &mut resources) {
        CallPlan::Busy { name, answer } => {
            assert_eq!(name, "heavy");
            assert_eq!(
                answer,
                r#"{"jsonrpc":"2.0","error":{"code":-32604,"message":"Server is busy, try again later"},"id":3}"#
            );
        }
        _ => panic!("should be busy"),
    }
    resources.release(guard);
    assert!(matches!(methods.plan_call(Id::Number(4), "heavy", &mut resources), CallPlan::Run { .. }));
}

#[test]
fn uninitialized_methods_are_busy() {
    let mut methods = Methods::new();
    methods.verify_and_insert("m", MethodCallback::new(1u32)).unwrap();
    let mut resources = Resources::new();
    assert!(matches!(methods.plan_call(Id::Null, "m", &mut resources), CallPlan::Busy { .. }));
}

#[test]
fn initializing_with_an_unknown_label_fails() {
    let mut methods = Methods::new();
    let mut cb = MethodCallback::new(1u32);
    cb.set_resources(MethodResourcesBuilder::new().resource("gpu", 1).unwrap().build());
    methods.verify_and_insert("m", cb).unwrap();
    let resources = resources_with_cpu(1, 0);
    assert!(matches!(
        methods.initialize_resources(&resources),
        Err(Error::ResourceNameNotFoundForMethod("gpu", "m"))
    ));
}

#[test]
fn zero_capacity_makes_a_resource_unlimited() {
    let mut methods = Methods::new();
    let mut cb = MethodCallback::new(1u32);
    cb.set_resources(MethodResourcesBuilder::new().resource("cpu", 5).unwrap().build());
    methods.verify_and_insert("m", cb).unwrap();
    let mut resources = resources_with_cpu(0, 0);
    let methods = methods.initialize_resources(&resources).unwrap();
    for _ in 0..3 {
        assert!(matches!(methods.plan_call(Id::Null, "m", &mut resources), CallPlan::Run { .. }));
    }
}
