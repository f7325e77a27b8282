use std::cmp::Ordering;

use ayiou::plugin::{Capability, ConcurrencyPolicy, HandlerDecl, Permission};
use ayiou::route_order::{compare_routes, sort_routes};
use ayiou::routing::{
    build_routing_table, check_permission, concurrency_key, match_message, scan_permissions,
    ConcurrencyKey, DispatchCursor, PermissionCheck, PermissionFacts, PermissionScan, Route, RoutingSource,
    RoutingTable,
};

fn facts(user: &str, group: Option<&str>) -> PermissionFacts {
    PermissionFacts {
        user_id: user.to_string(),
        group_id: group.map(|g| g.to_string()),
        bot_id: None,
        capabilities: Vec::new(),
        has_sender: false,
        has_permission_checker: false,
    }
}

fn source(id: &str, handler: HandlerDecl) -> RoutingSource {
    RoutingSource { instance_id: id.to_string(), handlers: vec![handler] }
}

/// The instance ids of the handlers that run for `text`, in order, stopping after a blocking one.
fn dispatch(plugins: &Vec<RoutingSource>, table: &RoutingTable, text: &str, who: &PermissionFacts) -> Vec<String> {
    dispatch_with(plugins, table, text, who, &[]).0
}

/// Dispatch as the engine runs it, where the plugins named in `answer_block` answer with a
/// block: the instance ids that ran, and whether dispatch ended on a block.
fn dispatch_with(
    plugins: &Vec<RoutingSource>,
    table: &RoutingTable,
    text: &str,
    who: &PermissionFacts,
    answer_block: &[&str],
) -> (Vec<String>, bool) {
    let matched = match_message(table, text);
    let mut cursor = DispatchCursor::new(matched.len());
    let mut hits = Vec::new();
    while let Some(position) = cursor.current() {
        let candidate = &matched[position];
        let plugin = &plugins[candidate.route.plugin_index];
        let handler = &plugin.handlers[candidate.route.handler_index];
        if scan_permissions(&handler.permissions, who, 0) != PermissionScan::Allowed {
            cursor.skip();
            continue;
        }
        hits.push(plugin.instance_id.clone());
        cursor.ran(candidate.route.block, answer_block.contains(&plugin.instance_id.as_str()));
    }
    (hits, cursor.blocked())
}

#[test]
fn a_handler_that_answers_with_a_block_ends_dispatch() {
    let plugins = vec![
        source("a", HandlerDecl::wildcard_message().priority(1)),
        source("b", HandlerDecl::wildcard_message().priority(2)),
        source("c", HandlerDecl::wildcard_message().priority(3)),
    ];
    let table = build_routing_table(&Vec::new(), &plugins, &vec![0, 1, 2]).unwrap();
    let who = facts("user", None);
    assert_eq!(dispatch_with(&plugins, &table, "", &who, &["b"]), (vec!["a".to_string(), "b".to_string()], true));
    assert_eq!(
        dispatch_with(&plugins, &table, "", &who, &[]),
        (vec!["a".to_string(), "b".to_string(), "c".to_string()], false)
    );
}

#[test]
fn dispatch_cursor_stops_after_the_first_block() {
    let mut cursor = DispatchCursor::new(3);
    assert_eq!(cursor.current(), Some(0));
    cursor.skip();
    assert_eq!(cursor.current(), Some(1));
    cursor.ran(false, false);
    assert!(!cursor.blocked());
    assert_eq!(cursor.current(), Some(2));
    cursor.ran(true, false);
    assert!(cursor.blocked());
    assert_eq!(cursor.current(), None);
    let mut empty = DispatchCursor::new(0);
    assert_eq!(empty.current(), None);
    assert!(!empty.blocked());
    empty = DispatchCursor::new(1);
    empty.ran(false, true);
    assert!(empty.blocked());
}

#[test]
fn handlers_run_by_priority_and_a_blocking_handler_stops_the_rest() {
    let plugins = vec![
        source("late", HandlerDecl::wildcard_message().priority(20)),
        source("first", HandlerDecl::wildcard_message().priority(5).block(true)),
        source("never", HandlerDecl::wildcard_message().priority(30)),
    ];
    let table = build_routing_table(&Vec::new(), &plugins, &vec![0, 1, 2]).unwrap();
    assert_eq!(dispatch(&plugins, &table, "", &facts("user", None)), vec!["first"]);
    assert!(dispatch_with(&plugins, &table, "", &facts("user", None), &[]).1);
}

#[test]
fn patterns_and_permissions_filter_handlers() {
    let plugins = vec![
        source("regex", HandlerDecl::message_regex(vec!["^hello\\s+\\w+$".to_string()])),
        source(
            "admin-only",
            HandlerDecl::wildcard_message().require_permission(Permission::user("admin")),
        ),
    ];
    let table = build_routing_table(&Vec::new(), &plugins, &vec![0, 1]).unwrap();
    assert_eq!(dispatch(&plugins, &table, "hello world", &facts("user", Some("g1"))), vec!["regex"]);
}

#[test]
fn permission_checks_use_the_sender_of_the_message() {
    let plugins = vec![source(
        "user-guard",
        HandlerDecl::wildcard_message().require_permission(Permission::user("admin")),
    )];
    let table = build_routing_table(&Vec::new(), &plugins, &vec![0]).unwrap();
    let mut hits = dispatch(&plugins, &table, "admin said hello", &facts("guest", None));
    hits.extend(dispatch(&plugins, &table, "plain text", &facts("admin", None)));
    assert_eq!(hits, vec!["user-guard"]);
}

#[test]
fn command_routes_win_over_wildcards_and_carry_the_invocation() {
    let plugins = vec![
        source("wild", HandlerDecl::wildcard_message()),
        source(
            "echo",
            HandlerDecl::message_commands(vec!["echo".to_string()], vec!["#".to_string()]),
        ),
    ];
    let table = build_routing_table(&vec!["/".to_string()], &plugins, &vec![0, 1]).unwrap();
    assert_eq!(table.command_prefixes, vec!["/".to_string(), "#".to_string()]);
    let matched = match_message(&table, "/echo hi there");
    assert_eq!(matched.len(), 1);
    assert_eq!(matched[0].match_rank, 0);
    let invocation = matched[0].invocation.as_ref().unwrap();
    assert_eq!(invocation.command(), "echo");
    assert_eq!(invocation.args(), "hi there");
    let other = match_message(&table, "/other");
    assert_eq!(other.len(), 1);
    assert_eq!(other[0].match_rank, 1);
    assert!(other[0].invocation.is_none());
}

#[test]
fn disabled_plugins_get_no_routes() {
    let plugins = vec![source("a", HandlerDecl::wildcard_message()), source("b", HandlerDecl::wildcard_message())];
    let table = build_routing_table(&Vec::new(), &plugins, &vec![1]).unwrap();
    let matched = match_message(&table, "x");
    assert_eq!(matched.len(), 1);
    assert_eq!(matched[0].route.plugin_index, 1);
}

#[test]
fn an_invalid_pattern_fails_the_table() {
    let plugins = vec![source("bad", HandlerDecl::message_regex(vec!["(".to_string()]))];
    let err = build_routing_table(&Vec::new(), &plugins, &vec![0]).err().unwrap();
    assert!(err.starts_with("plugin `bad` declared invalid regex `(`: "));
}

#[test]
fn permissions_are_decided_from_ids_capabilities_and_the_checker() {
    let mut who = facts("u1", Some("g1"));
    assert_eq!(check_permission(&Permission::Any, &who), PermissionCheck::Granted);
    assert_eq!(check_permission(&Permission::group("g1"), &who), PermissionCheck::Granted);
    assert_eq!(check_permission(&Permission::group("g2"), &who), PermissionCheck::Denied);
    assert_eq!(check_permission(&Permission::Bot("b".to_string()), &who), PermissionCheck::Denied);
    assert_eq!(
        check_permission(&Permission::PlatformCapability(Capability::ProactiveSend), &who),
        PermissionCheck::Denied
    );
    assert_eq!(check_permission(&Permission::role("mod"), &who), PermissionCheck::Denied);
    who.has_sender = true;
    who.has_permission_checker = true;
    who.bot_id = Some("b".to_string());
    assert_eq!(check_permission(&Permission::Bot("b".to_string()), &who), PermissionCheck::Granted);
    assert_eq!(
        check_permission(&Permission::PlatformCapability(Capability::ProactiveSend), &who),
        PermissionCheck::Granted
    );
    assert_eq!(check_permission(&Permission::custom("x"), &who), PermissionCheck::AskChecker);
    let perms = vec![Permission::Any, Permission::custom("x"), Permission::user("nobody")];
    assert_eq!(scan_permissions(&perms, &who, 0), PermissionScan::Ask(1));
    assert_eq!(scan_permissions(&perms, &who, 2), PermissionScan::Denied);
}

#[test]
fn serialized_handlers_wait_on_the_right_key() {
    assert_eq!(concurrency_key(ConcurrencyPolicy::Parallel, 3, "u", Some("g")), None);
    assert_eq!(concurrency_key(ConcurrencyPolicy::Drop, 3, "u", Some("g")), None);
    assert_eq!(concurrency_key(ConcurrencyPolicy::PluginSerial, 3, "u", None), Some(ConcurrencyKey::Plugin(3)));
    assert_eq!(
        concurrency_key(ConcurrencyPolicy::UserSerial, 3, "u", None),
        Some(ConcurrencyKey::User("u".to_string()))
    );
    assert_eq!(concurrency_key(ConcurrencyPolicy::GroupSerial, 3, "u", None), None);
    assert_eq!(
        concurrency_key(ConcurrencyPolicy::ConversationSerial, 3, "u", Some("g")),
        Some(ConcurrencyKey::Conversation { user_id: "u".to_string(), group_id: Some("g".to_string()) })
    );
}

fn route(priority: i32, plugin_index: usize, handler_index: usize) -> Route {
    Route { plugin_index, handler_index, priority, block: false, concurrency: ConcurrencyPolicy::Parallel }
}

#[test]
fn routes_order_by_priority_then_plugin_then_handler() {
    assert_eq!(compare_routes(&route(1, 9, 9), &route(2, 0, 0)), Ordering::Less);
    assert_eq!(compare_routes(&route(2, 1, 0), &route(2, 0, 5)), Ordering::Greater);
    assert_eq!(compare_routes(&route(2, 1, 3), &route(2, 1, 3)), Ordering::Equal);
    let mut routes = vec![route(5, 0, 0), route(1, 2, 1), route(1, 2, 0), route(-3, 7, 0)];
    sort_routes(&mut routes);
    assert_eq!(routes, vec![route(-3, 7, 0), route(1, 2, 0), route(1, 2, 1), route(5, 0, 0)]);
}
