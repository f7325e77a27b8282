//! Plugin manifests, handler declarations, capabilities, permissions and per-plugin runtime state.
use vstd::prelude::*;

use crate::assoc::StringMap;
use crate::service::{ServiceKey, ServiceRegistry, RuntimeService};
use crate::sorting::{StrKey, lemma_sort_by_key, sort_by_str_key, sorted_by_key};
use crate::text::{owned, str_equal, chars_of};

verus! {

/// A platform feature that a plugin may require or use when present.
#[derive(Clone, Debug, PartialEq, Eq, Hash)]
pub enum Capability {
    ProactiveSend,
    MessageDelete,
    Reaction,
    GroupModeration,
    RichSegments,
    Custom(String),
}

/// The abstract value of a [`Capability`].
pub enum CapabilityView {
    ProactiveSend,
    MessageDelete,
    Reaction,
    GroupModeration,
    RichSegments,
    Custom(Seq<char>),
}

impl View for Capability {
    type V = CapabilityView;

    open spec fn view(&self) -> CapabilityView {
        match self {
            Capability::ProactiveSend => CapabilityView::ProactiveSend,
            Capability::MessageDelete => CapabilityView::MessageDelete,
            Capability::Reaction => CapabilityView::Reaction,
            Capability::GroupModeration => CapabilityView::GroupModeration,
            Capability::RichSegments => CapabilityView::RichSegments,
            Capability::Custom(name) => CapabilityView::Custom(name@),
        }
    }
}

pub open spec fn cap_views(s: Seq<Capability>) -> Seq<CapabilityView> {
    s.map_values(|c: Capability| c@)
}

impl Capability {
    pub fn custom(name: &str) -> (r: Self)
        ensures
            r@ == CapabilityView::Custom(name@),
    {
        Capability::Custom(owned(name))
    }

    /// A copy of this capability.
    pub fn copy(&self) -> (r: Self)
        ensures
            r@ == self@,
    {
        match self {
            Capability::ProactiveSend => Capability::ProactiveSend,
            Capability::MessageDelete => Capability::MessageDelete,
            Capability::Reaction => Capability::Reaction,
            Capability::GroupModeration => Capability::GroupModeration,
            Capability::RichSegments => Capability::RichSegments,
            Capability::Custom(name) => Capability::Custom(name.clone()),
        }
    }

    /// Whether two capabilities are the same.
    pub fn same(&self, other: &Capability) -> (r: bool)
        ensures
            r == (self@ == other@),
    {
        match (self, other) {
            (Capability::ProactiveSend, Capability::ProactiveSend) => true,
            (Capability::MessageDelete, Capability::MessageDelete) => true,
            (Capability::Reaction, Capability::Reaction) => true,
            (Capability::GroupModeration, Capability::GroupModeration) => true,
            (Capability::RichSegments, Capability::RichSegments) => true,
            (Capability::Custom(a), Capability::Custom(b)) => str_equal(a.as_str(), b.as_str()),
            _ => false,
        }
    }
}

/// Whether `list` holds `c`.
pub fn contains_capability(list: &[Capability], c: &Capability) -> (r: bool)
    ensures
        r == cap_views(list@).contains(c@),
{
    let mut i: usize = 0;
    while i < list.len()
        invariant
            i <= list.len(),
            forall|j: int| 0 <= j < i ==> list@[j]@ != c@,
        decreases list.len() - i,
    {
        if list[i].same(c) {
            assert(cap_views(list@)[i as int] == c@);
            return true;
        }
        i = i + 1;
    }
    assert forall|j: int| 0 <= j < cap_views(list@).len() implies cap_views(list@)[j] != c@ by {
        assert(cap_views(list@)[j] == list@[j]@);
    }
    false
}

/// The capabilities of `wanted` that `provided` lacks, in order.
pub open spec fn missing_caps(wanted: Seq<CapabilityView>, provided: Seq<CapabilityView>) -> Seq<CapabilityView> {
    wanted.filter(|c: CapabilityView| !provided.contains(c))
}

/// The capabilities of `wanted` that `provided` lacks, in order.
pub fn missing_capabilities(wanted: &[Capability], provided: &[Capability]) -> (r: Vec<Capability>)
    ensures
        cap_views(r@) == missing_caps(cap_views(wanted@), cap_views(provided@)),
{
    let ghost pv = cap_views(provided@);
    let ghost pred = |c: CapabilityView| !pv.contains(c);
    let mut out: Vec<Capability> = Vec::new();
    let mut i: usize = 0;
    while i < wanted.len()
        invariant
            i <= wanted.len(),
            pv == cap_views(provided@),
            pred == (|c: CapabilityView| !pv.contains(c)),
            cap_views(out@) == cap_views(wanted@).take(i as int).filter(pred),
        decreases wanted.len() - i,
    {
        proof {
            let w = cap_views(wanted@);
            assert(w.take(i as int + 1) =~= w.take(i as int).push(w[i as int]));
            w.take(i as int).lemma_filter_push(w[i as int], pred);
        }
        if !contains_capability(provided, &wanted[i]) {
            let ghost before = out@;
            out.push(wanted[i].copy());
            proof {
                assert(cap_views(out@) =~= cap_views(before).push(wanted@[i as int]@));
            }
        }
        i = i + 1;
    }
    assert(cap_views(wanted@).take(wanted@.len() as int) =~= cap_views(wanted@));
    out
}

/// What a plugin declares about itself: its kind, version and requirements.
#[derive(Clone, Debug, PartialEq, Eq)]
pub struct RuntimePluginManifest {
    pub kind: String,
    pub description: String,
    pub version: String,
    pub required_capabilities: Vec<Capability>,
    pub optional_capabilities: Vec<Capability>,
    pub required_services: Vec<ServiceKey>,
    pub optional_services: Vec<ServiceKey>,
}

impl RuntimePluginManifest {
    pub fn new(kind: &str) -> (r: Self)
        ensures
            r.kind@ == kind@,
            r.description@.len() == 0,
            r.version@ == "0.0.0"@,
            r.required_capabilities@.len() == 0,
            r.optional_capabilities@.len() == 0,
            r.required_services@.len() == 0,
            r.optional_services@.len() == 0,
    {
        RuntimePluginManifest {
            kind: owned(kind),
            description: String::new(),
            version: owned("0.0.0"),
            required_capabilities: Vec::new(),
            optional_capabilities: Vec::new(),
            required_services: Vec::new(),
            optional_services: Vec::new(),
        }
    }

    pub fn description(self, description: &str) -> (r: Self)
        ensures
            r == (RuntimePluginManifest { description: r.description, ..self }),
            r.description@ == description@,
    {
        RuntimePluginManifest { description: owned(description), ..self }
    }

    pub fn version(self, version: &str) -> (r: Self)
        ensures
            r == (RuntimePluginManifest { version: r.version, ..self }),
            r.version@ == version@,
    {
        RuntimePluginManifest { version: owned(version), ..self }
    }

    pub fn require_capability(self, capability: Capability) -> (r: Self)
        ensures
            r == (RuntimePluginManifest { required_capabilities: r.required_capabilities, ..self }),
            r.required_capabilities@ == self.required_capabilities@.push(capability),
    {
        let mut s = self;
        s.required_capabilities.push(capability);
        s
    }

    pub fn optional_capability(self, capability: Capability) -> (r: Self)
        ensures
            r == (RuntimePluginManifest { optional_capabilities: r.optional_capabilities, ..self }),
            r.optional_capabilities@ == self.optional_capabilities@.push(capability),
    {
        let mut s = self;
        s.optional_capabilities.push(capability);
        s
    }

    /// Declares that the plugin needs the service of type `S`.
    pub fn require_service<S: RuntimeService>(self) -> (r: Self)
        ensures
            r == (RuntimePluginManifest { required_services: r.required_services, ..self }),
            r.required_services@.len() == self.required_services@.len() + 1,
            r.required_services@.take(self.required_services@.len() as int) == self.required_services@,
    {
        let mut s = self;
        s.required_services.push(ServiceKey::of::<S>());
        s
    }

    /// Declares that the plugin uses the service of type `S` when it is present.
    pub fn optional_service<S: RuntimeService>(self) -> (r: Self)
        ensures
            r == (RuntimePluginManifest { optional_services: r.optional_services, ..self }),
            r.optional_services@.len() == self.optional_services@.len() + 1,
            r.optional_services@.take(self.optional_services@.len() as int) == self.optional_services@,
    {
        let mut s = self;
        s.optional_services.push(ServiceKey::of::<S>());
        s
    }
}

/// The outcome of matching a manifest's capabilities against what the platform provides.
#[derive(Clone, Debug, PartialEq, Eq)]
pub enum CapabilityNegotiation {
    Ready,
    Degraded { missing_optional: Vec<Capability> },
    Failed { missing_required: Vec<Capability> },
}

/// Fails when a required capability is missing (listing all of them); otherwise degraded when an
/// optional one is missing (listing those); otherwise ready.
pub fn negotiate_capabilities(manifest: &RuntimePluginManifest, provided: &[Capability]) -> (r: CapabilityNegotiation)
    ensures
        ({
            let req = missing_caps(cap_views(manifest.required_capabilities@), cap_views(provided@));
            let opt = missing_caps(cap_views(manifest.optional_capabilities@), cap_views(provided@));
            &&& req.len() > 0 ==> (r matches CapabilityNegotiation::Failed { missing_required } && cap_views(missing_required@) == req)
            &&& req.len() == 0 && opt.len() > 0 ==> (r matches CapabilityNegotiation::Degraded { missing_optional } && cap_views(missing_optional@) == opt)
            &&& req.len() == 0 && opt.len() == 0 ==> r is Ready
        }),
{
    let missing_required = missing_capabilities(manifest.required_capabilities.as_slice(), provided);
    if missing_required.len() > 0 {
        return CapabilityNegotiation::Failed { missing_required };
    }
    let missing_optional = missing_capabilities(manifest.optional_capabilities.as_slice(), provided);
    if missing_optional.len() == 0 {
        CapabilityNegotiation::Ready
    } else {
        CapabilityNegotiation::Degraded { missing_optional }
    }
}


/// Which events a handler receives.
#[derive(Clone, Copy, Debug, PartialEq, Eq, Default)]
pub enum HandlerEventKind {
    Any,
    #[default]
    Message,
}

/// Help text for a command.
#[derive(Clone, Debug, PartialEq, Eq)]
pub struct CommandMeta {
    pub name: String,
    pub aliases: Vec<String>,
    pub summary: String,
    pub usage: String,
    pub examples: Vec<String>,
}

impl CommandMeta {
    pub fn new(name: &str) -> (r: Self)
        ensures
            r.name@ == name@,
            r.aliases@.len() == 0,
            r.summary@.len() == 0,
            r.usage@.len() == 0,
            r.examples@.len() == 0,
    {
        CommandMeta {
            name: owned(name),
            aliases: Vec::new(),
            summary: String::new(),
            usage: String::new(),
            examples: Vec::new(),
        }
    }

    pub fn aliases(self, aliases: Vec<String>) -> (r: Self)
        ensures
            r == (CommandMeta { aliases, ..self }),
    {
        CommandMeta { aliases, ..self }
    }

    pub fn summary(self, summary: &str) -> (r: Self)
        ensures
            r == (CommandMeta { summary: r.summary, ..self }),
            r.summary@ == summary@,
    {
        CommandMeta { summary: owned(summary), ..self }
    }

    pub fn usage(self, usage: &str) -> (r: Self)
        ensures
            r == (CommandMeta { usage: r.usage, ..self }),
            r.usage@ == usage@,
    {
        CommandMeta { usage: owned(usage), ..self }
    }

    pub fn examples(self, examples: Vec<String>) -> (r: Self)
        ensures
            r == (CommandMeta { examples, ..self }),
    {
        CommandMeta { examples, ..self }
    }
}

/// A condition on who may trigger a handler.
#[derive(Clone, Debug, PartialEq, Eq)]
pub enum Permission {
    Any,
    User(String),
    Group(String),
    Bot(String),
    Role(String),
    Custom(String),
    PlatformCapability(Capability),
}

impl Permission {
    pub fn user(user_id: &str) -> (r: Self)
        ensures
            r matches Permission::User(u) && u@ == user_id@,
    {
        Permission::User(owned(user_id))
    }

    pub fn group(group_id: &str) -> (r: Self)
        ensures
            r matches Permission::Group(g) && g@ == group_id@,
    {
        Permission::Group(owned(group_id))
    }

    pub fn role(role: &str) -> (r: Self)
        ensures
            r matches Permission::Role(x) && x@ == role@,
    {
        Permission::Role(owned(role))
    }

    pub fn custom(name: &str) -> (r: Self)
        ensures
            r matches Permission::Custom(x) && x@ == name@,
    {
        Permission::Custom(owned(name))
    }
}

/// How invocations of a handler may overlap.
#[derive(Clone, Copy, Debug, PartialEq, Eq, Default)]
pub enum ConcurrencyPolicy {
    #[default]
    Parallel,
    PluginSerial,
    UserSerial,
    GroupSerial,
    ConversationSerial,
    Drop,
}

/// Which messages a handler takes, and how it ranks among the others.
#[derive(Clone, Debug, PartialEq, Eq)]
pub struct HandlerDecl {
    pub event_kind: HandlerEventKind,
    pub commands: Vec<String>,
    pub command_prefixes: Vec<String>,
    pub regex_patterns: Vec<String>,
    pub permissions: Vec<Permission>,
    pub command_meta: Vec<CommandMeta>,
    pub priority: i32,
    pub block: bool,
    pub wildcard: bool,
    pub concurrency: ConcurrencyPolicy,
}

impl HandlerDecl {
    /// A handler for every message.
    pub fn wildcard_message() -> (r: Self)
        ensures
            r.event_kind == HandlerEventKind::Message,
            r.commands@.len() == 0,
            r.command_prefixes@.len() == 0,
            r.regex_patterns@.len() == 0,
            r.permissions@.len() == 0,
            r.command_meta@.len() == 0,
            r.priority == 0,
            !r.block,
            r.wildcard,
            r.concurrency == ConcurrencyPolicy::Parallel,
    {
        HandlerDecl {
            event_kind: HandlerEventKind::Message,
            commands: Vec::new(),
            command_prefixes: Vec::new(),
            regex_patterns: Vec::new(),
            permissions: Vec::new(),
            command_meta: Vec::new(),
            priority: 0,
            block: false,
            wildcard: true,
            concurrency: ConcurrencyPolicy::Parallel,
        }
    }

    /// A handler for the given commands, introduced by the given prefixes.
    pub fn message_commands(commands: Vec<String>, command_prefixes: Vec<String>) -> (r: Self)
        ensures
            r.event_kind == HandlerEventKind::Message,
            r.commands == commands,
            r.command_prefixes == command_prefixes,
            r.regex_patterns@.len() == 0,
            r.permissions@.len() == 0,
            r.command_meta@.len() == 0,
            r.priority == 0,
            !r.block,
            !r.wildcard,
            r.concurrency == ConcurrencyPolicy::Parallel,
    {
        HandlerDecl {
            event_kind: HandlerEventKind::Message,
            commands,
            command_prefixes,
            regex_patterns: Vec::new(),
            permissions: Vec::new(),
            command_meta: Vec::new(),
            priority: 0,
            block: false,
            wildcard: false,
            concurrency: ConcurrencyPolicy::Parallel,
        }
    }

    /// A handler for messages that match one of the patterns.
    pub fn message_regex(patterns: Vec<String>) -> (r: Self)
        ensures
            r.event_kind == HandlerEventKind::Message,
            r.commands@.len() == 0,
            r.command_prefixes@.len() == 0,
            r.regex_patterns == patterns,
            r.permissions@.len() == 0,
            r.command_meta@.len() == 0,
            r.priority == 0,
            !r.block,
            !r.wildcard,
            r.concurrency == ConcurrencyPolicy::Parallel,
    {
        HandlerDecl {
            event_kind: HandlerEventKind::Message,
            commands: Vec::new(),
            command_prefixes: Vec::new(),
            regex_patterns: patterns,
            permissions: Vec::new(),
            command_meta: Vec::new(),
            priority: 0,
            block: false,
            wildcard: false,
            concurrency: ConcurrencyPolicy::Parallel,
        }
    }

    pub fn require_permission(self, permission: Permission) -> (r: Self)
        ensures
            r == (HandlerDecl { permissions: r.permissions, ..self }),
            r.permissions@ == self.permissions@.push(permission),
    {
        let mut s = self;
        s.permissions.push(permission);
        s
    }

    pub fn require_permissions(self, permissions: Vec<Permission>) -> (r: Self)
        ensures
            r == (HandlerDecl { permissions: r.permissions, ..self }),
            r.permissions@ == self.permissions@ + permissions@,
    {
        let mut s = self;
        let mut extra = permissions;
        s.permissions.append(&mut extra);
        s
    }

    pub fn command_meta(self, meta: Vec<CommandMeta>) -> (r: Self)
        ensures
            r == (HandlerDecl { command_meta: meta, ..self }),
    {
        HandlerDecl { command_meta: meta, ..self }
    }

    pub fn priority(self, priority: i32) -> (r: Self)
        ensures
            r == (HandlerDecl { priority, ..self }),
    {
        HandlerDecl { priority, ..self }
    }

    pub fn block(self, block: bool) -> (r: Self)
        ensures
            r == (HandlerDecl { block, ..self }),
    {
        HandlerDecl { block, ..self }
    }

    pub fn concurrency(self, concurrency: ConcurrencyPolicy) -> (r: Self)
        ensures
            r == (HandlerDecl { concurrency, ..self }),
    {
        HandlerDecl { concurrency, ..self }
    }
}

/// A configuration update for a plugin instance.
#[derive(Clone, Debug, PartialEq)]
pub struct ConfigUpdate {
    pub version: u64,
    pub values: serde_json::Value,
    pub dry_run: bool,
}

impl ConfigUpdate {
    pub fn new(version: u64, values: serde_json::Value) -> (r: Self)
        ensures
            r == (ConfigUpdate { version, values, dry_run: false }),
    {
        ConfigUpdate { version, values, dry_run: false }
    }

    pub fn dry_run(version: u64, values: serde_json::Value) -> (r: Self)
        ensures
            r == (ConfigUpdate { version, values, dry_run: true }),
    {
        ConfigUpdate { version, values, dry_run: true }
    }
}

/// The version a plugin applied, if it applied the update.
#[derive(Clone, Copy, Debug, PartialEq, Eq)]
pub struct ApplyConfigOutcome {
    pub applied_version: Option<u64>,
}

impl ApplyConfigOutcome {
    pub fn applied(version: u64) -> (r: Self)
        ensures
            r.applied_version == Some(version),
    {
        ApplyConfigOutcome { applied_version: Some(version) }
    }

    pub fn skipped() -> (r: Self)
        ensures
            r.applied_version is None,
    {
        ApplyConfigOutcome { applied_version: None }
    }
}

impl Default for ApplyConfigOutcome {
    /// No version applied: the same as `skipped()`.
    fn default() -> (r: Self)
        ensures
            r.applied_version is None,
    {
        ApplyConfigOutcome::skipped()
    }
}

/// Whether a handler stops the handlers after it.
#[derive(Clone, Copy, Debug, PartialEq, Eq)]
pub struct HandleOutcome {
    pub block: bool,
}

impl HandleOutcome {
    pub fn pass() -> (r: Self)
        ensures
            !r.block,
    {
        HandleOutcome { block: false }
    }

    pub fn block() -> (r: Self)
        ensures
            r.block,
    {
        HandleOutcome { block: true }
    }

    pub fn from_block(block: bool) -> (r: Self)
        ensures
            r.block == block,
    {
        HandleOutcome { block }
    }
}

impl Default for HandleOutcome {
    /// No block: the same as `pass()`.
    fn default() -> (r: Self)
        ensures
            !r.block,
    {
        HandleOutcome::pass()
    }
}

/// The answer of a permission service.
#[derive(Clone, Debug, PartialEq, Eq)]
pub enum PermissionDecision {
    Allow,
    Deny(String),
}

impl PermissionDecision {
    pub fn allowed(&self) -> (r: bool)
        ensures
            r == (*self is Allow),
    {
        match self {
            PermissionDecision::Allow => true,
            PermissionDecision::Deny(_) => false,
        }
    }
}

/// Identifies a conversation: a plugin, a user and, in a group, the group.
#[derive(Clone, Debug, PartialEq, Eq, Hash)]
pub struct ConversationKey {
    pub plugin_id: String,
    pub user_id: String,
    pub group_id: Option<String>,
}

impl ConversationKey {
    pub fn new(plugin_id: &str, user_id: &str, group_id: Option<&str>) -> (r: Self)
        ensures
            r.plugin_id@ == plugin_id@,
            r.user_id@ == user_id@,
            r.group_id.deep_view() == (match group_id {
                Some(g) => Some(g@),
                None => None,
            }),
    {
        let group_id = match group_id {
            Some(g) => Some(owned(g)),
            None => None,
        };
        ConversationKey { plugin_id: owned(plugin_id), user_id: owned(user_id), group_id }
    }
}

/// Where a plugin instance is in its lifecycle.
#[derive(Clone, Copy, Debug, PartialEq, Eq, Default, Structural)]
pub enum PluginLifecycleState {
    #[default]
    Registered,
    Initializing,
    Starting,
    Running,
    Stopping,
    Stopped,
    Failed,
}

/// Where a plugin instance's configuration is in its lifecycle.
#[derive(Clone, Copy, Debug, PartialEq, Eq, Default, Structural)]
pub enum ConfigLifecycleState {
    Draft,
    Validated,
    #[default]
    Applied,
    Rejected,
}

/// What the runtime records about one plugin instance.
#[derive(Clone, Debug, PartialEq, Eq)]
pub struct PluginInstanceState {
    pub enabled: bool,
    pub desired_config_version: u64,
    pub applied_config_version: u64,
    pub config_lifecycle_state: ConfigLifecycleState,
    pub lifecycle_state: PluginLifecycleState,
    pub last_error: Option<String>,
}

/// The state of an instance the runtime has not recorded anything about.
pub open spec fn default_instance_state() -> PluginInstanceState {
    PluginInstanceState {
        enabled: true,
        desired_config_version: 0,
        applied_config_version: 0,
        config_lifecycle_state: ConfigLifecycleState::Applied,
        lifecycle_state: PluginLifecycleState::Registered,
        last_error: None,
    }
}

impl Default for PluginInstanceState {
    fn default() -> (r: Self)
        ensures
            r == default_instance_state(),
    {
        PluginInstanceState {
            enabled: true,
            desired_config_version: 0,
            applied_config_version: 0,
            config_lifecycle_state: ConfigLifecycleState::Applied,
            lifecycle_state: PluginLifecycleState::Registered,
            last_error: None,
        }
    }
}

impl PluginInstanceState {
    /// A copy of this state.
    pub fn copy(&self) -> (r: Self)
        ensures
            r == *self,
    {
        let last_error = match &self.last_error {
            Some(e) => Some(e.clone()),
            None => None,
        };
        PluginInstanceState {
            enabled: self.enabled,
            desired_config_version: self.desired_config_version,
            applied_config_version: self.applied_config_version,
            config_lifecycle_state: self.config_lifecycle_state,
            lifecycle_state: self.lifecycle_state,
            last_error,
        }
    }
}

/// The larger of two versions.
pub open spec fn max_version(a: u64, b: u64) -> u64 {
    if a >= b {
        a
    } else {
        b
    }
}

fn max_u64(a: u64, b: u64) -> (r: u64)
    ensures
        r == max_version(a, b),
{
    if a >= b {
        a
    } else {
        b
    }
}

/// The state of `plugin` in `m`: its entry, or the default state.
pub open spec fn state_in(m: Map<Seq<char>, PluginInstanceState>, plugin: Seq<char>) -> PluginInstanceState {
    if m.contains_key(plugin) {
        m[plugin]
    } else {
        default_instance_state()
    }
}

/// The runtime's record of every plugin instance, by instance id.
pub struct PluginRuntimeState {
    instances: StringMap<PluginInstanceState>,
}

impl View for PluginRuntimeState {
    type V = Map<Seq<char>, PluginInstanceState>;

    closed spec fn view(&self) -> Map<Seq<char>, PluginInstanceState> {
        self.instances@
    }
}

impl Default for PluginRuntimeState {
    fn default() -> (r: Self)
        ensures
            r@ == Map::<Seq<char>, PluginInstanceState>::empty(),
    {
        PluginRuntimeState { instances: StringMap::new() }
    }
}

impl PluginRuntimeState {
    pub fn new() -> (r: Self)
        ensures
            r@ == Map::<Seq<char>, PluginInstanceState>::empty(),
    {
        PluginRuntimeState { instances: StringMap::new() }
    }

    /// The recorded state of `plugin`, or the default state.
    pub fn snapshot(&self, plugin: &str) -> (r: PluginInstanceState)
        ensures
            r == state_in(self@, plugin@),
    {
        match self.instances.get(plugin) {
            Some(state) => state.copy(),
            None => PluginInstanceState::default(),
        }
    }

    fn store(&mut self, plugin: &str, state: PluginInstanceState)
        ensures
            final(self)@ == old(self)@.insert(plugin@, state),
    {
        self.instances.insert(plugin, state);
    }

    pub fn set_enabled(&mut self, plugin: &str, on: bool)
        ensures
            final(self)@ == old(self)@.insert(plugin@, PluginInstanceState { enabled: on, ..state_in(old(self)@, plugin@) }),
    {
        let mut st = self.snapshot(plugin);
        st.enabled = on;
        self.store(plugin, st);
    }

    pub fn is_enabled(&self, plugin: &str) -> (r: bool)
        ensures
            r == state_in(self@, plugin@).enabled,
    {
        match self.instances.get(plugin) {
            Some(state) => state.enabled,
            None => true,
        }
    }

    /// A new desired configuration version, not yet validated.
    pub fn set_desired_config_version(&mut self, plugin: &str, version: u64)
        ensures
            final(self)@ == old(self)@.insert(
                plugin@,
                PluginInstanceState {
                    desired_config_version: version,
                    config_lifecycle_state: ConfigLifecycleState::Draft,
                    ..state_in(old(self)@, plugin@)
                },
            ),
    {
        let mut st = self.snapshot(plugin);
        st.desired_config_version = version;
        st.config_lifecycle_state = ConfigLifecycleState::Draft;
        self.store(plugin, st);
    }

    pub fn mark_config_validated(&mut self, plugin: &str, version: u64)
        ensures
            final(self)@ == old(self)@.insert(
                plugin@,
                PluginInstanceState {
                    desired_config_version: max_version(state_in(old(self)@, plugin@).desired_config_version, version),
                    config_lifecycle_state: ConfigLifecycleState::Validated,
                    ..state_in(old(self)@, plugin@)
                },
            ),
    {
        let mut st = self.snapshot(plugin);
        st.desired_config_version = max_u64(st.desired_config_version, version);
        st.config_lifecycle_state = ConfigLifecycleState::Validated;
        self.store(plugin, st);
    }

    pub fn mark_config_applied(&mut self, plugin: &str, version: u64)
        ensures
            final(self)@ == old(self)@.insert(
                plugin@,
                PluginInstanceState {
                    applied_config_version: version,
                    desired_config_version: max_version(state_in(old(self)@, plugin@).desired_config_version, version),
                    config_lifecycle_state: ConfigLifecycleState::Applied,
                    ..state_in(old(self)@, plugin@)
                },
            ),
    {
        let mut st = self.snapshot(plugin);
        st.applied_config_version = version;
        st.desired_config_version = max_u64(st.desired_config_version, version);
        st.config_lifecycle_state = ConfigLifecycleState::Applied;
        self.store(plugin, st);
    }

    pub fn reject_config(&mut self, plugin: &str, version: u64, error: &str)
        ensures
            final(self)@.dom() == old(self)@.dom().insert(plugin@),
            forall|k: Seq<char>| k != plugin@ ==> #[trigger] final(self)@.contains_key(k) ==> final(self)@[k] == old(self)@[k],
            ({
                let s = state_in(final(self)@, plugin@);
                let o = state_in(old(self)@, plugin@);
                &&& s.desired_config_version == max_version(o.desired_config_version, version)
                &&& s.config_lifecycle_state == ConfigLifecycleState::Rejected
                &&& s.last_error.deep_view() == Some(error@)
                &&& s.enabled == o.enabled
                &&& s.applied_config_version == o.applied_config_version
                &&& s.lifecycle_state == o.lifecycle_state
            }),
    {
        let mut st = self.snapshot(plugin);
        st.desired_config_version = max_u64(st.desired_config_version, version);
        st.config_lifecycle_state = ConfigLifecycleState::Rejected;
        st.last_error = Some(owned(error));
        self.store(plugin, st);
    }

    pub fn set_lifecycle(&mut self, plugin: &str, lifecycle_state: PluginLifecycleState)
        ensures
            final(self)@ == old(self)@.insert(plugin@, PluginInstanceState { lifecycle_state, ..state_in(old(self)@, plugin@) }),
    {
        let mut st = self.snapshot(plugin);
        st.lifecycle_state = lifecycle_state;
        self.store(plugin, st);
    }

    /// Marks `plugin` failed with `error`.
    pub fn record_error(&mut self, plugin: &str, error: &str)
        ensures
            final(self)@.dom() == old(self)@.dom().insert(plugin@),
            forall|k: Seq<char>| k != plugin@ ==> #[trigger] final(self)@.contains_key(k) ==> final(self)@[k] == old(self)@[k],
            ({
                let s = state_in(final(self)@, plugin@);
                let o = state_in(old(self)@, plugin@);
                &&& s.lifecycle_state == PluginLifecycleState::Failed
                &&& s.last_error.deep_view() == Some(error@)
                &&& s.enabled == o.enabled
                &&& s.desired_config_version == o.desired_config_version
                &&& s.applied_config_version == o.applied_config_version
                &&& s.config_lifecycle_state == o.config_lifecycle_state
            }),
    {
        let mut st = self.snapshot(plugin);
        st.lifecycle_state = PluginLifecycleState::Failed;
        st.last_error = Some(owned(error));
        self.store(plugin, st);
    }

    pub fn clear_error(&mut self, plugin: &str)
        ensures
            final(self)@ == old(self)@.insert(plugin@, PluginInstanceState { last_error: None, ..state_in(old(self)@, plugin@) }),
    {
        let mut st = self.snapshot(plugin);
        st.last_error = None;
        self.store(plugin, st);
    }

    /// Every recorded instance with its state, sorted by instance id.
    pub fn snapshots(&self) -> (r: Vec<(String, PluginInstanceState)>)
        ensures
            r@.len() == self@.len(),
            sorted_by_key(r@),
            forall|i: int| 0 <= i < r@.len() ==> #[trigger] self@.contains_key(r@[i].0@) && self@[r@[i].0@] == r@[i].1,
            forall|k: Seq<char>| #[trigger] self@.contains_key(k) ==> exists|i: int| 0 <= i < r@.len() && r@[i].0@ == k,
    {
        let mut copy: Vec<(String, PluginInstanceState)> = Vec::new();
        let mut i: usize = 0;
        while i < self.instances.entry_count()
            invariant
                i <= self.instances.spec_entries().len(),
                copy@ == self.instances.spec_entries().take(i as int),
            decreases self.instances.spec_entries().len() - i,
        {
            let k = self.instances.key_at(i).clone();
            let v = self.instances.value_at(i).copy();
            copy.push((k, v));
            proof {
                assert(copy@ =~= self.instances.spec_entries().take(i as int + 1));
            }
            i = i + 1;
        }
        assert(self.instances.spec_entries().take(self.instances.spec_entries().len() as int) =~= self.instances.spec_entries());
        self.instances.lemma_view();
        proof {
            lemma_sort_by_key(copy@);
        }
        let r = sort_by_str_key(copy);
        proof {
            broadcast use vstd::seq_lib::group_to_multiset_ensures;
            let e = self.instances.spec_entries();
            assert forall|i: int| 0 <= i < r@.len() implies #[trigger] self@.contains_key(r@[i].0@) && self@[r@[i].0@] == r@[i].1 by {
                assert(r@.to_multiset().count(r@[i]) > 0);
                assert(e.contains(r@[i]));
                let j = choose|j: int| 0 <= j < e.len() && e[j] == r@[i];
                assert(self.instances@[e[j].0@] == e[j].1);
            }
            assert forall|k: Seq<char>| #[trigger] self@.contains_key(k) implies exists|i: int| 0 <= i < r@.len() && r@[i].0@ == k by {
                let j = choose|j: int| 0 <= j < e.len() && e[j].0@ == k;
                assert(e.to_multiset().count(e[j]) > 0);
                assert(r@.contains(e[j]));
            }
        }
        r
    }
}

/// A plugin's own report of its health.
#[derive(Clone, Debug, PartialEq, Eq)]
pub struct PluginHealth {
    pub healthy: bool,
    pub detail: Option<String>,
}

impl PluginHealth {
    pub fn healthy() -> (r: Self)
        ensures
            r.healthy,
            r.detail is None,
    {
        PluginHealth { healthy: true, detail: None }
    }
}

/// Everything the runtime reports about one plugin instance.
#[derive(Clone, Debug, PartialEq, Eq)]
pub struct RuntimePluginSnapshot {
    pub instance_id: String,
    pub kind: String,
    pub manifest: RuntimePluginManifest,
    pub lifecycle: PluginInstanceState,
    pub health: PluginHealth,
    pub reloadable: bool,
}

impl StrKey for RuntimePluginSnapshot {
    open spec fn spec_key(&self) -> Seq<char> {
        self.instance_id@
    }

    fn key_chars(&self) -> (r: Vec<char>) {
        chars_of(self.instance_id.as_str())
    }
}

/// Snapshots ordered by instance id.
pub fn sort_snapshots(snapshots: Vec<RuntimePluginSnapshot>) -> (r: Vec<RuntimePluginSnapshot>)
    ensures
        r@ == crate::sorting::sort_by_key(snapshots@),
        sorted_by_key(r@),
        r@.to_multiset() == snapshots@.to_multiset(),
{
    proof {
        lemma_sort_by_key(snapshots@);
    }
    sort_by_str_key(snapshots)
}

/// The requirements of a plugin instance that the host cannot meet.
#[derive(Clone, Debug, PartialEq, Eq)]
pub struct PluginRequirementFailure {
    pub instance_id: String,
    pub missing_capabilities: Vec<Capability>,
    pub missing_services: Vec<ServiceKey>,
}

/// A plugin's name and description.
#[derive(Clone, Debug, PartialEq, Eq)]
pub struct PluginMetadata {
    pub name: String,
    pub description: String,
    pub version: String,
}

impl PluginMetadata {
    pub fn new(name: &str) -> (r: Self)
        ensures
            r.name@ == name@,
            r.description@.len() == 0,
            r.version@ == "0.0.0"@,
    {
        PluginMetadata { name: owned(name), description: String::new(), version: owned("0.0.0") }
    }

    pub fn description(self, desc: &str) -> (r: Self)
        ensures
            r.name == self.name,
            r.version == self.version,
            r.description@ == desc@,
    {
        PluginMetadata { description: owned(desc), ..self }
    }

    pub fn version(self, version: &str) -> (r: Self)
        ensures
            r.name == self.name,
            r.description == self.description,
            r.version@ == version@,
    {
        PluginMetadata { version: owned(version), ..self }
    }
}

impl Default for PluginMetadata {
    fn default() -> (r: Self)
        ensures
            r.name@ == "unnamed"@,
            r.description@.len() == 0,
            r.version@ == "0.0.0"@,
    {
        PluginMetadata { name: owned("unnamed"), description: String::new(), version: owned("0.0.0") }
    }
}

} // verus!
