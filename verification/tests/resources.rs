use jsonrpsee::types::error::Error;
use jsonrpsee::utils::resource_limiting::Resources;
use jsonrpsee::utils::rpc_module::{MethodResources, MethodResourcesBuilder};

#[test]
fn registering_resources() {
    let mut resources = Resources::new();
    resources.register("cpu", 10, 1).unwrap();
    assert!(matches!(resources.register("cpu", 5, 1), Err(Error::ResourceNameAlreadyTaken("cpu"))));
    for label in ["a", "b", "c", "d", "e", "f", "g"] {
        resources.register(label, 1, 0).unwrap();
    }
    assert!(matches!(resources.register("h", 1, 0), Err(Error::MaxResourcesReached)));
    assert_eq!(resources.position_of("cpu"), Some(0));
    assert_eq!(resources.position_of("g"), Some(7));
    assert_eq!(resources.position_of("zzz"), None);
    assert_eq!(resources.capacity(0), 10);
    assert_eq!(resources.default_units(), [1, 0, 0, 0, 0, 0, 0, 0]);
}

#[test]
fn claims_over_capacity_are_refused_and_releases_give_units_back() {
    let mut resources = Resources::new();
    resources.register("cpu", 3, 1).unwrap();
    resources.register("mem", 2, 1).unwrap();
    let g1 = resources.claim([2, 1, 0, 0, 0, 0, 0, 0]).unwrap();
    assert!(matches!(resources.claim([1, 2, 0, 0, 0, 0, 0, 0]), Err(Error::ResourceAtCapacity("mem"))));
    assert!(matches!(resources.claim([2, 0, 0, 0, 0, 0, 0, 0]), Err(Error::ResourceAtCapacity("cpu"))));
    let g2 = resources.claim([1, 1, 0, 0, 0, 0, 0, 0]).unwrap();
    resources.release(g1);
    resources.release(g2);
    assert!(resources.claim([3, 2, 0, 0, 0, 0, 0, 0]).is_ok());
}

#[test]
fn method_resources_resolve_labels_with_defaults() {
    let mut resources = Resources::new();
    resources.register("cpu", 10, 1).unwrap();
    resources.register("mem", 0, 4).unwrap();
    let table = MethodResourcesBuilder::new().resource("mem", 3).unwrap().build();
    match table.initialize("m", &resources).unwrap() {
        MethodResources::Initialized(units) => assert_eq!(units, [1, 0, 0, 0, 0, 0, 0, 0]),
        _ => panic!(),
    }
    let table = MethodResourcesBuilder::new().resource("cpu", 7).unwrap().build();
    match table.initialize("m", &resources).unwrap() {
        MethodResources::Initialized(units) => assert_eq!(units, [7, 4, 0, 0, 0, 0, 0, 0]),
        _ => panic!(),
    }
    let table = MethodResourcesBuilder::new().resource("gpu", 1).unwrap().build();
    assert!(matches!(table.initialize("m", &resources), Err(Error::ResourceNameNotFoundForMethod("gpu", "m"))));
}

#[test]
fn a_method_claims_at_most_eight_resources() {
    let mut builder = MethodResourcesBuilder::new();
    for label in ["a", "b", "c", "d", "e", "f", "g", "h"] {
        builder = builder.resource(label, 1).unwrap();
    }
    assert!(matches!(builder.resource("i", 1), Err(Error::MaxResourcesReached)));
}

#[test]
fn a_capacity_of_zero_means_no_limit() {
    let mut resources = Resources::new();
    resources.register("cpu", 0, 0).unwrap();
    let mut units = [0u16; 8];
    units[0] = 3;
    assert!(resources.claim(units).is_ok());
    assert!(resources.claim([u16::MAX - 3, 0, 0, 0, 0, 0, 0, 0]).is_ok());
    // Only a total that a u16 cannot hold is refused.
    assert!(matches!(resources.claim([1, 0, 0, 0, 0, 0, 0, 0]), Err(Error::ResourceAtCapacity("cpu"))));
}
