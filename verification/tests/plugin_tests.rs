use ayiou::engine::{
    provided_capabilities, record_requirement_failures, start_on_enable, stop_on_disable,
    validate_startup_requirements, PluginDirectory, StartupCandidate,
};
use ayiou::observability::{format_metric_key, InMemoryMetrics, MetricsSink};
use ayiou::plugin::{
    negotiate_capabilities, sort_snapshots, Capability, CapabilityNegotiation,
    ConfigLifecycleState, PluginHealth, PluginInstanceState, PluginLifecycleState,
    PluginRequirementFailure, PluginRuntimeState, RuntimePluginManifest, RuntimePluginSnapshot,
};
use ayiou::service::{RuntimeService, ServiceKey, ServiceRegistry};

struct TestCounterService;

impl RuntimeService for TestCounterService {
    fn name(&self) -> &'static str {
        "test-counter"
    }
}

#[test]
fn metric_key_has_stable_label_order() {
    let a = format_metric_key(
        "events_in_total",
        &[("plugin", "a"), ("platform", "onebot")],
    );
    let b = format_metric_key(
        "events_in_total",
        &[("platform", "onebot"), ("plugin", "a")],
    );
    assert_eq!(a, b);
}

#[test]
fn metric_key_lists_labels_sorted_by_name() {
    assert_eq!(
        format_metric_key("events_in_total", &[("plugin", "a"), ("platform", "onebot")]),
        "events_in_total{platform=onebot,plugin=a}"
    );
    assert_eq!(format_metric_key("plain", &[]), "plain");
}

#[test]
fn in_memory_metrics_accumulates_values() {
    let mut metrics = InMemoryMetrics::new();
    metrics.incr_counter("events_in_total", 1, &[("platform", "onebot")]);
    metrics.incr_counter("events_in_total", 2, &[("platform", "onebot")]);
    metrics.observe_duration_ms("plugin_handle_duration_ms", 10, &[]);
    metrics.observe_duration_ms("plugin_handle_duration_ms", 40, &[]);

    let counters = metrics.snapshot_counters();
    assert_eq!(counters.len(), 1);
    assert_eq!(counters[0].1, 3);

    let durations = metrics.snapshot_durations();
    assert_eq!(durations.len(), 1);
    assert_eq!(durations[0].1, 50);
    assert_eq!(durations[0].2, 2);
}

#[test]
fn counters_saturate_instead_of_overflowing() {
    let mut metrics = InMemoryMetrics::new();
    metrics.incr_counter("c", u64::MAX, &[]);
    metrics.incr_counter("c", 5, &[]);
    assert_eq!(metrics.snapshot_counters(), vec![("c".to_string(), u64::MAX)]);
}

fn tracks_versions_and_errors() {
    let mut state = PluginRuntimeState::default();
    state.set_enabled("echo", false);
    state.set_desired_config_version("echo", 3);
    state.mark_config_applied("echo", 2);
    state.record_error("echo", "boom");

    let snapshot = state.snapshot("echo");
    assert!(!snapshot.enabled);
    assert_eq!(snapshot.desired_config_version, 3);
    assert_eq!(snapshot.applied_config_version, 2);
    assert_eq!(snapshot.lifecycle_state, PluginLifecycleState::Failed);
    assert_eq!(snapshot.last_error.as_deref(), Some("boom"));
}

#[test]
fn plugin_runtime_state_tracks_versions_and_errors() {
    tracks_versions_and_errors();
}

#[test]
fn plugin_runtime_runtime_state_tracks_versions_and_errors() {
    tracks_versions_and_errors();
}

#[test]
fn config_versions_move_through_draft_validated_applied() {
    let mut state = PluginRuntimeState::new();
    state.set_desired_config_version("p", 5);
    assert_eq!(state.snapshot("p").config_lifecycle_state, ConfigLifecycleState::Draft);
    state.mark_config_validated("p", 7);
    let s = state.snapshot("p");
    assert_eq!(s.config_lifecycle_state, ConfigLifecycleState::Validated);
    assert_eq!(s.desired_config_version, 7);
    state.reject_config("p", 8, "bad");
    let s = state.snapshot("p");
    assert_eq!(s.config_lifecycle_state, ConfigLifecycleState::Rejected);
    assert_eq!(s.last_error.as_deref(), Some("bad"));
    state.clear_error("p");
    assert!(state.snapshot("p").last_error.is_none());
    assert_eq!(state.snapshot("unknown"), PluginInstanceState::default());
    assert!(state.is_enabled("unknown"));
}

fn snapshot(id: &str) -> RuntimePluginSnapshot {
    RuntimePluginSnapshot {
        instance_id: id.to_string(),
        kind: id.to_string(),
        manifest: RuntimePluginManifest::new(id),
        lifecycle: PluginInstanceState::default(),
        health: PluginHealth::healthy(),
        reloadable: false,
    }
}

fn snapshots_sorted() {
    let snapshots = vec![snapshot("zeta"), snapshot("alpha"), snapshot("middle")];
    let instance_ids: Vec<_> = sort_snapshots(snapshots)
        .into_iter()
        .map(|snapshot| snapshot.instance_id)
        .collect();

    assert_eq!(instance_ids, vec!["alpha", "middle", "zeta"]);
}

#[test]
fn plugin_plugin_snapshots_are_sorted_by_instance_id() {
    snapshots_sorted();
}

#[test]
fn plugin_system_plugin_snapshots_are_sorted_by_instance_id() {
    snapshots_sorted();
}

fn all_failures() {
    let registry = ServiceRegistry::default();
    let candidates = vec![
        StartupCandidate {
            instance_id: "missing-service".to_string(),
            manifest: RuntimePluginManifest::new("missing-service")
                .require_service::<TestCounterService>(),
        },
        StartupCandidate {
            instance_id: "missing-capability".to_string(),
            manifest: RuntimePluginManifest::new("missing-capability")
                .require_capability(Capability::Reaction),
        },
    ];

    let failures = validate_startup_requirements(&candidates, &provided_capabilities(&Vec::new(), false), &registry);

    assert_eq!(
        failures,
        vec![
            PluginRequirementFailure {
                instance_id: "missing-service".to_string(),
                missing_capabilities: Vec::new(),
                missing_services: vec![ServiceKey::of::<TestCounterService>()],
            },
            PluginRequirementFailure {
                instance_id: "missing-capability".to_string(),
                missing_capabilities: vec![Capability::Reaction],
                missing_services: Vec::new(),
            },
        ]
    );
}

#[test]
fn plugin_runtime_plugin_engine_reports_all_startup_requirement_failures() {
    all_failures();
}

#[test]
fn plugin_system_runtime_plugin_engine_reports_all_startup_requirement_failures() {
    all_failures();
}

fn read_only_validation() {
    let state = PluginRuntimeState::default();
    let registry = ServiceRegistry::default();
    let candidates = vec![StartupCandidate {
        instance_id: "missing-service".to_string(),
        manifest: RuntimePluginManifest::new("missing-service").require_service::<TestCounterService>(),
    }];

    let before = state.snapshot("missing-service");
    let failures = validate_startup_requirements(&candidates, &Vec::new(), &registry);
    let after = state.snapshot("missing-service");

    assert_eq!(failures.len(), 1);
    assert_eq!(before, after);
}

#[test]
fn plugin_startup_requirement_validation_is_read_only() {
    read_only_validation();
}

#[test]
fn plugin_system_startup_requirement_validation_is_read_only() {
    read_only_validation();
}

#[test]
fn satisfied_requirements_report_no_failure() {
    let mut registry = ServiceRegistry::default();
    registry.insert(TestCounterService);
    let candidates = vec![StartupCandidate {
        instance_id: "ok".to_string(),
        manifest: RuntimePluginManifest::new("ok")
            .require_service::<TestCounterService>()
            .optional_capability(Capability::Reaction),
    }];
    assert!(validate_startup_requirements(&candidates, &Vec::new(), &registry).is_empty());
}

#[test]
fn failed_requirements_mark_plugins_failed_with_one_message() {
    let mut state = PluginRuntimeState::default();
    let failures = vec![PluginRequirementFailure {
        instance_id: "p".to_string(),
        missing_capabilities: vec![Capability::Reaction, Capability::custom("x")],
        missing_services: Vec::new(),
    }];
    let err = record_requirement_failures(&mut state, &failures).unwrap_err();
    assert_eq!(err, "plugin `p` missing required capabilities: [Reaction, Custom(\"x\")]");
    let snap = state.snapshot("p");
    assert_eq!(snap.lifecycle_state, PluginLifecycleState::Failed);
    assert_eq!(snap.last_error.as_deref(), Some(err.as_str()));
    assert!(record_requirement_failures(&mut state, &Vec::new()).is_ok());
}

#[test]
fn missing_service_message_names_the_service_type() {
    let failure = PluginRequirementFailure {
        instance_id: "dependency".to_string(),
        missing_capabilities: Vec::new(),
        missing_services: vec![ServiceKey::of::<TestCounterService>()],
    };
    let message = failure.message();
    assert!(message.starts_with("plugin `dependency` missing required services: [\""));
    assert!(message.contains(ServiceKey::of::<TestCounterService>().type_label()));
}

#[test]
fn negotiation_fails_then_degrades_then_is_ready() {
    let manifest = RuntimePluginManifest::new("k")
        .require_capability(Capability::Reaction)
        .optional_capability(Capability::RichSegments);
    assert_eq!(
        negotiate_capabilities(&manifest, &[]),
        CapabilityNegotiation::Failed { missing_required: vec![Capability::Reaction] }
    );
    assert_eq!(
        negotiate_capabilities(&manifest, &[Capability::Reaction]),
        CapabilityNegotiation::Degraded { missing_optional: vec![Capability::RichSegments] }
    );
    assert_eq!(
        negotiate_capabilities(&manifest, &[Capability::RichSegments, Capability::Reaction]),
        CapabilityNegotiation::Ready
    );
}

#[test]
fn directory_tracks_enabled_order() {
    let mut dir = PluginDirectory::new();
    assert_eq!(dir.register("a", true).unwrap(), 0);
    assert_eq!(dir.register("b", false).unwrap(), 1);
    assert_eq!(
        dir.register("a", true).unwrap_err(),
        "plugin instance `a` is already registered"
    );
    assert_eq!(dir.enabled_order(), &vec![0]);
    assert_eq!(dir.enable("b").unwrap(), 1);
    assert_eq!(dir.enable("b").unwrap(), 1);
    assert_eq!(dir.enabled_order(), &vec![0, 1]);
    assert_eq!(dir.disable("a").unwrap(), 0);
    assert_eq!(dir.enabled_order(), &vec![1]);
    assert!(!dir.is_enabled(0));
    assert_eq!(dir.index_of("zz").unwrap_err(), "plugin instance `zz` is not registered");
}

#[test]
fn lifecycle_steps_on_enable_and_disable() {
    assert!(start_on_enable(PluginLifecycleState::Registered));
    assert!(start_on_enable(PluginLifecycleState::Stopped));
    assert!(!start_on_enable(PluginLifecycleState::Running));
    assert!(stop_on_disable(PluginLifecycleState::Running));
    assert!(stop_on_disable(PluginLifecycleState::Starting));
    assert!(!stop_on_disable(PluginLifecycleState::Failed));
}
