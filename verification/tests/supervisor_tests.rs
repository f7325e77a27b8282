use ayiou::engine::default_instance_id;
use ayiou::plugin::PluginLifecycleState;
use ayiou::supervisor::{no_config_message, prepare_steps, Registry};

#[test]
fn registry_refuses_duplicates_and_names_missing_entries() {
    let mut bots: Registry<u32> = Registry::new("bot");
    assert!(bots.register("bot-a", 1).is_ok());
    assert_eq!(bots.register("bot-a", 2).unwrap_err(), "bot `bot-a` already exists");
    assert_eq!(*bots.get("bot-a").unwrap(), 1);
    assert_eq!(bots.get("bot-b").unwrap_err(), "bot `bot-b` is not registered");
    assert_eq!(bots.remove("bot-a").unwrap(), 1);
    assert_eq!(bots.remove("bot-a").unwrap_err(), "bot `bot-a` is not registered");
    assert_eq!(bots.len(), 0);
}

#[test]
fn registry_lists_names_in_order() {
    let mut kinds: Registry<()> = Registry::new("plugin kind");
    kinds.put("zeta", ());
    kinds.put("alpha", ());
    kinds.put("mid", ());
    kinds.put("alpha", ());
    assert_eq!(kinds.names(), vec!["alpha".to_string(), "mid".to_string(), "zeta".to_string()]);
    assert!(kinds.contains("mid"));
    assert_eq!(kinds.get("x").unwrap_err(), "plugin kind `x` is not registered");
}

#[test]
fn prepare_steps_follow_the_instance_state() {
    let skip = prepare_steps(false, true, false, false);
    assert!(skip.stop_only && !skip.create && !skip.start);
    assert_eq!(skip.end_state, Some(PluginLifecycleState::Stopped));

    let fresh = prepare_steps(true, true, false, false);
    assert!(fresh.create && fresh.start && !fresh.apply_config);
    assert_eq!(fresh.end_state, Some(PluginLifecycleState::Running));

    let running = prepare_steps(true, true, true, true);
    assert!(!running.create && !running.start && running.apply_config);
    assert_eq!(running.end_state, Some(PluginLifecycleState::Running));

    let configure_only = prepare_steps(true, false, true, true);
    assert!(!configure_only.create && configure_only.apply_config && !configure_only.start);
    assert_eq!(configure_only.end_state, None);

    let created_idle = prepare_steps(false, false, true, false);
    assert!(created_idle.create && !created_idle.start);
    assert_eq!(created_idle.end_state, Some(PluginLifecycleState::Stopped));
}

#[test]
fn missing_config_is_named() {
    assert_eq!(no_config_message("echo"), "plugin `echo` does not have persisted config");
}

#[test]
fn default_instance_ids_fall_back_to_the_kind() {
    assert_eq!(default_instance_id("echo", "echo-kind"), "echo");
    assert_eq!(default_instance_id("  ", "echo-kind"), "echo-kind");
    assert_eq!(default_instance_id("", "k"), "k");
    assert_eq!(default_instance_id(" a ", "k"), " a ");
}
