use std::sync::Arc;

use ayiou::plugin::RuntimePluginManifest;
use ayiou::service::{RuntimeService, ServiceKey, ServiceRegistry};

struct CounterService {
    value: usize,
}

impl RuntimeService for CounterService {
    fn name(&self) -> &'static str {
        "counter"
    }
}

struct VersionedCounterService {
    value: usize,
    version: &'static str,
}

impl RuntimeService for VersionedCounterService {
    fn name(&self) -> &'static str {
        "versioned-counter"
    }

    fn version(&self) -> &'static str {
        self.version
    }
}

#[derive(Debug)]
struct MissingService;

impl RuntimeService for MissingService {
    fn name(&self) -> &'static str {
        "missing"
    }
}

struct TestCounterService {
    #[allow(dead_code)]
    value: usize,
}

impl RuntimeService for TestCounterService {
    fn name(&self) -> &'static str {
        "test-counter"
    }
}

#[test]
fn registry_returns_typed_service_after_insert() {
    let mut registry = ServiceRegistry::default();

    registry.insert(CounterService { value: 42 });

    let service = registry
        .get::<CounterService>()
        .expect("counter service should be registered");
    assert_eq!(service.value, 42);
}

#[test]
fn registry_returns_none_for_missing_service() {
    let registry = ServiceRegistry::default();

    assert!(registry.get::<MissingService>().is_none());
}

#[test]
fn registry_describes_registered_services() {
    let mut registry = ServiceRegistry::default();

    registry.insert(CounterService { value: 42 });

    let descriptor = registry
        .descriptor::<CounterService>()
        .expect("counter service should have a descriptor");
    assert_eq!(descriptor.key, ServiceKey::of::<CounterService>());
    assert_eq!(descriptor.name, "counter");
    assert_eq!(descriptor.version, "0.1.0");
    assert_eq!(registry.descriptors(), vec![descriptor]);
}

#[test]
fn registry_replaces_service_descriptor_with_instance() {
    let mut registry = ServiceRegistry::default();

    registry.insert(VersionedCounterService {
        value: 1,
        version: "1.0.0",
    });
    registry.insert(VersionedCounterService {
        value: 2,
        version: "2.0.0",
    });

    let service = registry
        .require::<VersionedCounterService>()
        .expect("versioned counter should be registered");
    let descriptor = registry
        .descriptor::<VersionedCounterService>()
        .expect("versioned counter should have a descriptor");

    assert_eq!(service.value, 2);
    assert_eq!(descriptor.version, "2.0.0");
    assert_eq!(registry.descriptors(), vec![descriptor]);
}

#[test]
fn registry_require_reports_a_missing_service() {
    let registry = ServiceRegistry::default();

    let err = registry.require::<MissingService>().unwrap_err();

    assert!(err.starts_with("runtime service `"));
    assert!(err.ends_with("` is not registered"));
    let label = ServiceKey::of::<MissingService>().type_label().to_string();
    assert_eq!(err, format!("runtime service `{}` is not registered", label));
}

#[test]
fn try_insert_refuses_a_second_service_of_a_type() {
    let mut registry = ServiceRegistry::default();
    assert!(registry.try_insert(CounterService { value: 1 }).is_ok());
    let err = registry.try_insert(CounterService { value: 2 }).unwrap_err();
    assert!(err.ends_with("` is already registered"));
    let service: Arc<CounterService> = registry.get::<CounterService>().unwrap();
    assert_eq!(service.value, 1);
}

#[test]
fn service_keys_of_one_type_are_equal() {
    let a = ServiceKey::of::<CounterService>();
    let b = ServiceKey::of::<CounterService>();
    let c = ServiceKey::of::<MissingService>();
    assert!(a.same(&b));
    assert!(!a.same(&c));
    assert_eq!(a.type_id(), std::any::TypeId::of::<CounterService>());
    assert_eq!(a.type_label(), format!("{:?}", std::any::TypeId::of::<CounterService>()));
    assert_ne!(a.type_label(), c.type_label());
    assert_eq!(a, b);
}

#[test]
fn plugin_runtime_plugin_manifest_records_service_dependencies() {
    let manifest = RuntimePluginManifest::new("service-user")
        .require_service::<TestCounterService>()
        .optional_service::<MissingService>();

    assert_eq!(
        manifest.required_services,
        vec![ServiceKey::of::<TestCounterService>()]
    );
    assert_eq!(
        manifest.optional_services,
        vec![ServiceKey::of::<MissingService>()]
    );
}

#[test]
fn plugin_system_runtime_plugin_manifest_records_service_dependencies() {
    let manifest = RuntimePluginManifest::new("service-user")
        .require_service::<TestCounterService>()
        .optional_service::<MissingService>();

    assert_eq!(
        manifest.required_services,
        vec![ServiceKey::of::<TestCounterService>()]
    );
    assert_eq!(
        manifest.optional_services,
        vec![ServiceKey::of::<MissingService>()]
    );
}
