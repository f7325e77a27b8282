# ayiou

A bot framework whose core is verified with Verus: adapters turn platform traffic into
events, plugins declare handlers, and the runtime routes each message to the handlers
that take it.

## Layout

- `src/` — the verified library. Every function there carries a contract that Verus
  proves; calls into other crates go through small trusted wrappers whose contracts are
  stated next to them.
  - `text`, `order`, `sorting`, `ranking`, `assoc`: characters, orders, stable sorts and
    string-keyed maps that the rest builds on.
  - `command`, `extract`, `dispatch`: command lines, their arguments, and prefixes.
  - `plugin`, `service`, `dependency`, `engine`, `routing`, `route_order`: plugin
    declarations, service registries, dependency order, startup validation, the routing
    table and message matching, permission checks.
  - `session`, `runtime`, `lifecycle`, `scheduler`, `storage`, `event_bus`: conversation
    sessions with revision-checked updates, runtime state, hooks, task ids, an in-memory
    store, and one broadcast channel per runtime event type.
  - `plugin_services`: what the host hands a plugin (sender, permission checker, identity,
    capabilities, services).
  - `config`, `config_tree`, `config_store`: configuration documents (lookup, dotted
    paths, merging) and versioned plugin configuration records.
  - `model`, `event`, `context`, `console`, `onebot`: platform-neutral messages and
    events, the console adapter's rules, and the OneBot v11 protocol.
  - `control_plane`, `supervisor`, `dynamic`, `remote`, `resources`, `observability`:
    control-plane answers, bot and plugin registries, dynamic plugins, remote plugin
    indexes, typed resources and metrics.
- `tests/` — tests run against the compiled library.
- `app/` — the asynchronous runtime around the library: locks, tasks, files, the HTTP
  control plane, the console and OneBot transports, and the command line.
