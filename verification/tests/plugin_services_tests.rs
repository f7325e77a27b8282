use ayiou::engine::provided_capabilities;
use ayiou::plugin::Capability;
use ayiou::plugin_services::RuntimePluginServices;
use ayiou::service::{RuntimeService, ServiceKey, ServiceRegistry};

struct TestCounterService {
    value: usize,
}

impl RuntimeService for TestCounterService {
    fn name(&self) -> &'static str {
        "test-counter"
    }
}

struct NoopSender;

struct NoChecker;

type Services = RuntimePluginServices<NoopSender, NoChecker>;

#[test]
fn plugin_runtime_plugin_services_provide_registered_services() {
    let mut registry = ServiceRegistry::default();
    registry.insert(TestCounterService { value: 7 });
    let services = Services::new().with_service_registry(registry);

    let service = services
        .require_service::<TestCounterService>()
        .expect("service should be available");

    assert_eq!(service.value, 7);
}

#[test]
fn plugin_runtime_plugin_services_describe_registered_services() {
    let mut registry = ServiceRegistry::default();
    registry.insert(TestCounterService { value: 7 });
    let services = Services::new().with_service_registry(registry);

    let descriptor = services
        .service_descriptor::<TestCounterService>()
        .expect("counter service should have a descriptor");

    assert_eq!(descriptor.key, ServiceKey::of::<TestCounterService>());
    assert_eq!(descriptor.name, "test-counter");
    assert_eq!(descriptor.version, "0.1.0");
    assert_eq!(services.service_descriptors(), vec![descriptor]);
}

#[test]
fn plugin_system_runtime_plugin_services_provide_registered_services() {
    let mut registry = ServiceRegistry::default();
    registry.insert(TestCounterService { value: 7 });
    let services = Services::new().with_service_registry(registry);

    let service = services
        .require_service::<TestCounterService>()
        .expect("service should be available");

    assert_eq!(service.value, 7);
}

#[test]
fn plugin_system_runtime_plugin_services_describe_registered_services() {
    let mut registry = ServiceRegistry::default();
    registry.insert(TestCounterService { value: 7 });
    let services = Services::new().with_service_registry(registry);

    let descriptor = services
        .service_descriptor::<TestCounterService>()
        .expect("counter service should have a descriptor");

    assert_eq!(descriptor.key, ServiceKey::of::<TestCounterService>());
    assert_eq!(descriptor.name, "test-counter");
    assert_eq!(descriptor.version, "0.1.0");
    assert_eq!(services.service_descriptors(), vec![descriptor]);
}

#[test]
fn runtime_plugin_services_infer_proactive_send_from_host_sender() {
    let services = Services::new().with_sender(Some(NoopSender));

    assert_eq!(services.provided_capabilities(), vec![Capability::ProactiveSend]);
}

#[test]
fn provided_capabilities_add_sending_once() {
    assert_eq!(provided_capabilities(&Vec::new(), true), vec![Capability::ProactiveSend]);
    assert_eq!(provided_capabilities(&vec![Capability::ProactiveSend], true), vec![Capability::ProactiveSend]);
    assert_eq!(provided_capabilities(&vec![Capability::Reaction], false), vec![Capability::Reaction]);
    let with_caps = Services::new().with_capabilities(vec![Capability::Reaction]).with_sender(Some(NoopSender));
    assert_eq!(with_caps.provided_capabilities(), vec![Capability::Reaction, Capability::ProactiveSend]);
}

#[test]
fn plugin_services_carry_identity_and_refuse_missing_parts() {
    let services = Services::new().with_instance_id("echo").with_identity("bot-a", "qq");
    assert_eq!(services.instance_id.as_deref(), Some("echo"));
    assert_eq!(services.bot_id.as_ref().map(|b| b.as_str()), Some("bot-a"));
    assert_eq!(services.platform.as_ref().map(|p| p.as_str()), Some("qq"));
    assert!(services.sender().is_none());
    assert!(services.permission_checker().is_none());
    assert_eq!(services.require_sender().err(), Some("adapter does not provide proactive message sending".to_string()));
    assert!(services.require_service::<TestCounterService>().is_err());
    assert!(services.service::<TestCounterService>().is_none());
    let with_checker = services.with_permission_service(Some(NoChecker));
    assert!(with_checker.permission_checker().is_some());
}
