use ayiou::config::{default_ws_url, BotConfig};
use ayiou::config_store::{next_config_version, record_location, sanitize_segment, ConfigRecord};
use ayiou::control_plane::{
    action_error, authorize, capability_name, config_state_name, lifecycle_state_name,
    plugin_not_found, ControlPlaneOptions,
};
use ayiou::dependency::{admit_plugin, sort_by_dependencies, DependencyError, PluginDependency, PluginNode};
use ayiou::dynamic::{DynamicPluginTable, PluginSource, PluginState};
use ayiou::event::Event;
use ayiou::lifecycle::LifecycleDriver;
use ayiou::plugin::{Capability, ConfigLifecycleState, PluginLifecycleState};
use ayiou::remote::{
    cached_file_name, config_format, md5_like_hash, search, sha256_hex, verify_checksum,
    ConfigFormat, InstalledPlugin, PluginConfig, PluginManifest, PluginRepository,
};
use ayiou::resources::ResourceRegistry;
use ayiou::runtime::{RuntimeState, RuntimeStatus};
use ayiou::scheduler::{check_interval, parse_cron, TaskId, TaskIds};
use ayiou::supervisor::{BotDefinition, PluginInstanceSpec};
use ayiou::text::{decimal, signed_decimal};

#[test]
fn runtime_state_transitions_are_idempotent() {
    let mut rt = RuntimeStatus::default();
    rt.start();
    rt.start();
    rt.stop();
    rt.stop();
    assert_eq!(rt.state(), RuntimeState::Stopped);
}

#[test]
fn runtime_status_records_failures() {
    let mut rt = RuntimeStatus::default();
    rt.fail("boom");
    assert_eq!(rt.state, RuntimeState::Failed);
    assert_eq!(rt.last_error.as_deref(), Some("boom"));
    rt.mark_stopping();
    assert_eq!(rt.last_error.as_deref(), Some("boom"));
    rt.start();
    assert_eq!(rt.last_error, None);
}

#[test]
fn shutdown_hooks_run_in_reverse_order() {
    let mut driver: LifecycleDriver<&str, u8> = LifecycleDriver::new();
    driver.on_startup("s1");
    driver.on_startup("s2");
    driver.on_shutdown("d1");
    driver.on_shutdown("d2");
    driver.on_shutdown("d3");
    driver.on_bot_connect(7);
    assert_eq!(driver.startup_hook_count(), 2);
    assert_eq!(driver.shutdown_hook_count(), 3);
    assert_eq!(driver.bot_connect_hook_count(), 1);
    assert_eq!(driver.startup_hooks(), &vec!["s1", "s2"]);
    let order: Vec<&str> = driver.shutdown_order().into_iter().map(|i| driver.shutdown_hooks()[i]).collect();
    assert_eq!(order, vec!["d3", "d2", "d1"]);
}

#[test]
fn control_plane_options_default_and_builders() {
    let options = ControlPlaneOptions::new();
    assert_eq!(options.bind_text(), "127.0.0.1:32187");
    assert_eq!(options.token_value(), None);
    assert_eq!(options.required_token().unwrap_err(), "control plane token is required");
    let options = options.bind("0.0.0.0:1").token("secret");
    assert_eq!(options.bind_text(), "0.0.0.0:1");
    assert_eq!(options.token_value(), Some("secret"));
    assert_eq!(options.required_token().unwrap(), "secret");
}

#[test]
fn control_plane_requires_the_bearer_token() {
    assert!(authorize(Some("Bearer secret"), "secret").is_ok());
    let err = authorize(Some("Bearer other"), "secret").unwrap_err();
    assert_eq!(err.status, 401);
    assert_eq!(err.code, "unauthorized");
    assert_eq!(err.message, "valid bearer token required");
    assert!(authorize(None, "secret").is_err());
    assert!(authorize(Some("secret"), "secret").is_err());
}

#[test]
fn failed_plugin_actions_are_classified() {
    let e = action_error("plugin `x` is not reloadable");
    assert_eq!((e.status, e.code.as_str()), (400, "not_reloadable"));
    let e = action_error("plugin instance `x` is not registered");
    assert_eq!((e.status, e.code.as_str()), (404, "not_found"));
    let e = action_error("boom");
    assert_eq!((e.status, e.code.as_str(), e.message.as_str()), (400, "operation_failed", "boom"));
    let e = plugin_not_found("p1");
    assert_eq!((e.status, e.message.as_str()), (404, "plugin `p1` was not found"));
}

#[test]
fn snapshot_names() {
    assert_eq!(capability_name(&Capability::ProactiveSend), "proactive_send");
    assert_eq!(capability_name(&Capability::custom("mine")), "mine");
    assert_eq!(lifecycle_state_name(PluginLifecycleState::Running), "Running");
    assert_eq!(config_state_name(ConfigLifecycleState::Draft), "Draft");
}

#[test]
fn scheduler_checks_intervals_and_cron_expressions() {
    assert!(check_interval(1).is_ok());
    assert_eq!(check_interval(0).unwrap_err(), "interval must be greater than zero");
    assert!(parse_cron("0 30 9 * * Mon *").is_ok());
    let err = parse_cron("not a cron").err().unwrap();
    assert!(err.starts_with("invalid cron expression `not a cron`: "));
    let mut ids = TaskIds::new();
    assert_eq!(ids.next_task_id(), TaskId(1));
    assert_eq!(ids.next_task_id(), TaskId(2));
}

#[test]
fn ws_url_gets_the_access_token() {
    let mut config = BotConfig { ws_url: default_ws_url(), access_token: None, name: None };
    assert_eq!(config.ws_url_with_token(), "ws://127.0.0.1:8080");
    config.access_token = Some("t".to_string());
    assert_eq!(config.ws_url_with_token(), "ws://127.0.0.1:8080?access_token=t");
    config.ws_url = "ws://h/?a=1".to_string();
    assert_eq!(config.ws_url_with_token(), "ws://h/?a=1&access_token=t");
    config.access_token = Some(String::new());
    assert_eq!(config.ws_url_with_token(), "ws://h/?a=1");
}

#[test]
fn config_records_are_versioned() {
    assert_eq!(next_config_version(None, None).unwrap(), 1);
    assert_eq!(next_config_version(Some(1), Some(1)).unwrap(), 2);
    let err = next_config_version(Some(1), Some(2)).unwrap_err();
    assert!(err.contains("version conflict"));
    assert_eq!(err, "version conflict: expected 2, actual 1");
    assert_eq!(next_config_version(Some(u64::MAX), None).unwrap_err(), "version overflow");
    assert_eq!(sanitize_segment("a/b:c*?"), "a_b_c__");
    assert_eq!(record_location("bot:1", "echo"), ("bot_1".to_string(), "echo.toml".to_string()));
    let record = ConfigRecord { version: 2, content: "x".to_string() };
    assert_eq!(record.version, 2);
}

fn manifest(name: &str) -> PluginManifest {
    PluginManifest {
        name: name.to_string(),
        version: "1.0.0".to_string(),
        description: String::new(),
        author: String::new(),
        download_url: format!("https://example.invalid/{name}.wasm"),
        checksum: None,
        min_ayiou_version: None,
        homepage: None,
        license: None,
    }
}

#[test]
fn remote_search_finds_the_first_match() {
    let repos = vec![
        PluginRepository { name: "r1".to_string(), url: "u1".to_string(), plugins: vec![manifest("a")], updated_at: None },
        PluginRepository { name: "r2".to_string(), url: "u2".to_string(), plugins: vec![manifest("b"), manifest("a")], updated_at: None },
    ];
    assert_eq!(search(&repos, "a"), Some((0, 0)));
    assert_eq!(search(&repos, "b"), Some((1, 0)));
    assert_eq!(search(&repos, "c"), None);
    assert_eq!(cached_file_name("a"), "a.wasm");
}

#[test]
fn content_hash_is_fnv1a() {
    assert_eq!(md5_like_hash(b""), 0xcbf29ce484222325);
    assert_eq!(md5_like_hash(b"a"), 0xaf63dc4c8601ec8c);
    assert_eq!(sha256_hex(b"a"), "af63dc4c8601ec8c");
    assert!(verify_checksum("af63dc4c8601ec8c", b"a").is_ok());
    assert_eq!(
        verify_checksum("00", b"a").unwrap_err(),
        "Checksum mismatch! Expected: 00, Got: af63dc4c8601ec8c"
    );
}

#[test]
fn plugin_list_adds_replaces_and_toggles() {
    let mut config = PluginConfig::new();
    config.add_plugin("a".to_string(), "s1".to_string(), serde_json::Value::Null);
    config.add_plugin("b".to_string(), "s2".to_string(), serde_json::Value::Null);
    config.add_plugin("a".to_string(), "s3".to_string(), serde_json::Value::Null);
    let names: Vec<(&str, &str)> = config.plugins.iter().map(|p: &InstalledPlugin| (p.name.as_str(), p.source.as_str())).collect();
    assert_eq!(names, vec![("b", "s2"), ("a", "s3")]);
    config.set_enabled("a", false);
    assert!(!config.plugins[1].enabled);
    config.remove_plugin("b");
    assert_eq!(config.plugins.len(), 1);
    assert_eq!(config_format("toml").unwrap(), ConfigFormat::Toml);
    assert_eq!(config_format("json").unwrap(), ConfigFormat::Json);
    assert_eq!(config_format("yaml").unwrap_err(), "Unsupported config format: yaml");
}

#[test]
fn dynamic_table_checks_ids_and_sources() {
    let mut table: DynamicPluginTable<u32> = DynamicPluginTable::new();
    assert!(table.register("s", PluginSource::Static, 1).is_ok());
    assert!(table.register("w", PluginSource::Wasm(std::path::PathBuf::from("w.wasm")), 2).is_ok());
    assert_eq!(table.register("s", PluginSource::Static, 3).unwrap_err(), "Plugin 's' already registered");
    assert_eq!(table.state("s"), Some(PluginState::Loaded));
    table.set_state("s", PluginState::Enabled);
    assert_eq!(table.enabled_positions(), vec![0]);
    assert_eq!(table.reload_source("s").unwrap_err(), "Cannot hot-reload static plugins");
    assert_eq!(table.reload_source("w").unwrap(), std::path::PathBuf::from("w.wasm"));
    assert_eq!(table.reload_source("x").unwrap_err(), "Plugin 'x' not found");
    table.replace_payload("w", 9);
    assert_eq!(*table.payload_at(1), 9);
    assert_eq!(table.enabled_positions(), vec![0, 1]);
    assert_eq!(table.unload("s").unwrap(), 1);
    assert_eq!(table.count(), 1);
    assert!(!table.has("s"));
}

#[test]
fn load_order_puts_dependencies_first() {
    let nodes = vec![
        PluginNode { name: "app".to_string(), dependencies: vec![PluginDependency::required("db")] },
        PluginNode { name: "db".to_string(), dependencies: vec![PluginDependency::optional("cache")] },
    ];
    assert_eq!(sort_by_dependencies(&nodes).unwrap(), vec![1, 0]);
    let missing = vec![PluginNode { name: "app".to_string(), dependencies: vec![PluginDependency::required("db")] }];
    assert_eq!(
        sort_by_dependencies(&missing).unwrap_err(),
        DependencyError::MissingRequired { plugin: "app".to_string(), dependency: "db".to_string() }
    );
    let cycle = vec![
        PluginNode { name: "a".to_string(), dependencies: vec![PluginDependency::required("b")] },
        PluginNode { name: "b".to_string(), dependencies: vec![PluginDependency::required("a")] },
    ];
    assert!(matches!(sort_by_dependencies(&cycle).unwrap_err(), DependencyError::Circular { .. }));
}

#[test]
fn supervisor_definitions_and_events() {
    let bot = BotDefinition::new("b1", "onebot", "ws").with_plugin(PluginInstanceSpec::new("echo", "echo").disabled());
    assert_eq!(bot.plugins.len(), 1);
    assert!(!bot.plugins[0].enabled);
    assert_eq!(bot.bot_id.as_str(), "b1");
    let event = Event::new("console.message", "console").user_id("u").group_id("g").message("hi").raw("{}");
    assert_eq!(event.user_id.as_deref(), Some("u"));
    assert_eq!(event.group_id.as_deref(), Some("g"));
    assert_eq!(event.message.as_deref(), Some("hi"));
    assert_eq!(event.raw, "{}");
}

#[test]
fn resources_are_kept_one_per_type() {
    let mut resources = ResourceRegistry::new();
    resources.insert(5u32);
    resources.insert(String::from("x"));
    resources.insert(7u32);
    assert_eq!(resources.get::<u32>(), Some(&7));
    *resources.get_mut::<String>().unwrap() = "y".to_string();
    assert!(resources.contains::<String>());
    assert_eq!(resources.remove::<String>(), Some("y".to_string()));
    assert!(!resources.contains::<String>());
    assert_eq!(resources.get::<i64>(), None);
}

#[test]
fn numbers_render_in_decimal() {
    assert_eq!(decimal(0), "0");
    assert_eq!(decimal(1234567890), "1234567890");
    assert_eq!(signed_decimal(-42), "-42");
    assert_eq!(signed_decimal(i64::MIN), i64::MIN.to_string());
}

#[test]
fn dependency_errors_read_as_the_application_reports_them() {
    let missing = DependencyError::MissingRequired { plugin: "app".to_string(), dependency: "db".to_string() };
    assert_eq!(missing.message(), "Plugin 'app' requires 'db' which is not registered");
    let cycle = vec![
        PluginNode { name: "a".to_string(), dependencies: vec![PluginDependency::required("b")] },
        PluginNode { name: "b".to_string(), dependencies: vec![PluginDependency::required("a")] },
    ];
    let err = sort_by_dependencies(&cycle).unwrap_err();
    assert_eq!(err, DependencyError::Circular { remaining: vec!["a".to_string(), "b".to_string()] });
    assert_eq!(err.message(), "Circular dependency detected among plugins: [\"a\", \"b\"]");
    let empty = DependencyError::Circular { remaining: Vec::new() };
    assert_eq!(empty.message(), "Circular dependency detected among plugins: []");
}

#[test]
fn plugins_sharing_a_name_get_no_load_order() {
    let twice = vec![
        PluginNode { name: "echo".to_string(), dependencies: Vec::new() },
        PluginNode { name: "echo".to_string(), dependencies: Vec::new() },
    ];
    assert!(sort_by_dependencies(&twice).is_err());
}

#[test]
fn a_unique_plugin_is_admitted_once() {
    let names = vec!["echo".to_string()];
    assert_eq!(admit_plugin(&names, "echo", true), Err("Plugin 'echo' is already registered".to_string()));
    assert_eq!(admit_plugin(&names, "echo", false), Ok(()));
    assert_eq!(admit_plugin(&names, "ping", true), Ok(()));
}
