//! Decisions of the plugin engine that need no plugin code: the capabilities the platform offers,
//! the startup requirements that fail and how the failures read, which plugins are enabled and
//! in which order, and the lifecycle step that enabling or disabling a plugin calls for.
use vstd::prelude::*;

use crate::plugin::{
    Capability, CapabilityView, PluginLifecycleState, PluginRequirementFailure, PluginRuntimeState,
    RuntimePluginManifest, cap_views, contains_capability, missing_caps, missing_capabilities,
    state_in,
};
use crate::service::{ServiceKey, ServiceRegistry};
use crate::text::{owned, str_equal};

verus! {

/// The capabilities a bot offers: its declared ones, plus proactive sending when a sender is
/// attached and it is not declared already.
pub open spec fn offered_capabilities(declared: Seq<CapabilityView>, has_sender: bool) -> Seq<
    CapabilityView,
> {
    if has_sender && !declared.contains(CapabilityView::ProactiveSend) {
        declared.push(CapabilityView::ProactiveSend)
    } else {
        declared
    }
}

/// The instance id a plugin gets when none is given: its name, or its kind when the name
/// is blank.
pub fn default_instance_id(name: &str, kind: &str) -> (r: String)
    ensures
        r@ == if crate::text::trim_spec(name@).len() == 0 {
            kind@
        } else {
            name@
        },
{
    let trimmed = crate::text::trim_string(name);
    if trimmed.as_str().is_empty() {
        kind.to_string()
    } else {
        name.to_string()
    }
}

/// The capabilities a bot offers to its plugins.
pub fn provided_capabilities(capabilities: &Vec<Capability>, has_sender: bool) -> (r: Vec<
    Capability,
>)
    ensures
        cap_views(r@) == offered_capabilities(cap_views(capabilities@), has_sender),
{
    let mut out: Vec<Capability> = Vec::new();
    let mut i: usize = 0;
    while i < capabilities.len()
        invariant
            i <= capabilities@.len(),
            cap_views(out@) == cap_views(capabilities@).take(i as int),
        decreases capabilities.len() - i,
    {
        let ghost before = out@;
        out.push(capabilities[i].copy());
        proof {
            assert(cap_views(out@) =~= cap_views(before).push(capabilities@[i as int]@));
            assert(cap_views(capabilities@).take(i as int + 1) =~= cap_views(capabilities@).take(
                i as int,
            ).push(capabilities@[i as int]@));
        }
        i = i + 1;
    }
    assert(cap_views(capabilities@).take(capabilities@.len() as int) =~= cap_views(capabilities@));
    let proactive = Capability::ProactiveSend;
    if has_sender && !contains_capability(capabilities.as_slice(), &proactive) {
        let ghost before = out@;
        out.push(proactive);
        assert(cap_views(out@) =~= cap_views(before).push(CapabilityView::ProactiveSend));
    }
    out
}

/// The keys of `required` that `registry` lacks, in order.
pub open spec fn absent_services(required: Seq<ServiceKey>, registry: ServiceRegistry) -> Seq<
    ServiceKey,
> {
    required.filter(|k: ServiceKey| !registry.spec_has(k))
}

/// The services that `manifest` requires and `registry` does not hold.
pub fn missing_required_services(manifest: &RuntimePluginManifest, registry: &ServiceRegistry) -> (r:
    Vec<ServiceKey>)
    ensures
        r@ == absent_services(manifest.required_services@, *registry),
{
    let ghost req = manifest.required_services@;
    let ghost pred = |k: ServiceKey| !registry.spec_has(k);
    let mut out: Vec<ServiceKey> = Vec::new();
    let mut i: usize = 0;
    while i < manifest.required_services.len()
        invariant
            i <= req.len(),
            req == manifest.required_services@,
            pred == (|k: ServiceKey| !registry.spec_has(k)),
            out@ == req.take(i as int).filter(pred),
        decreases manifest.required_services.len() - i,
    {
        let key = &manifest.required_services[i];
        proof {
            assert(req.take(i as int + 1) =~= req.take(i as int).push(*key));
            req.take(i as int).lemma_filter_push(*key, pred);
        }
        if !registry.contains_key(key) {
            out.push(key.copy());
        }
        i = i + 1;
    }
    assert(req.take(req.len() as int) =~= req);
    out
}

/// An enabled plugin as startup validation sees it.
#[derive(Clone, Debug)]
pub struct StartupCandidate {
    pub instance_id: String,
    pub manifest: RuntimePluginManifest,
}

/// A failed requirement check: the instance, its missing capabilities and missing services.
pub open spec fn failure_view(f: PluginRequirementFailure) -> (Seq<char>, Seq<CapabilityView>, Seq<
    ServiceKey,
>) {
    (f.instance_id@, cap_views(f.missing_capabilities@), f.missing_services@)
}

/// The plugins of `candidates` (in order) that miss a required capability or service, each with
/// what it misses.
pub open spec fn startup_failures(
    candidates: Seq<StartupCandidate>,
    provided: Seq<CapabilityView>,
    registry: ServiceRegistry,
) -> Seq<(Seq<char>, Seq<CapabilityView>, Seq<ServiceKey>)>
    decreases candidates.len(),
{
    if candidates.len() == 0 {
        Seq::empty()
    } else {
        let c = candidates.last();
        let prev = startup_failures(candidates.drop_last(), provided, registry);
        let caps = missing_caps(cap_views(c.manifest.required_capabilities@), provided);
        let services = absent_services(c.manifest.required_services@, registry);
        if caps.len() > 0 || services.len() > 0 {
            prev.push((c.instance_id@, caps, services))
        } else {
            prev
        }
    }
}

/// Checks every candidate's required capabilities against `provided` and its required services
/// against `registry`, and reports the candidates that miss something, in order.
pub fn validate_startup_requirements(
    candidates: &Vec<StartupCandidate>,
    provided: &Vec<Capability>,
    registry: &ServiceRegistry,
) -> (r: Vec<PluginRequirementFailure>)
    ensures
        r@.map_values(|f: PluginRequirementFailure| failure_view(f)) == startup_failures(
            candidates@,
            cap_views(provided@),
            *registry,
        ),
{
    let mut out: Vec<PluginRequirementFailure> = Vec::new();
    let mut i: usize = 0;
    while i < candidates.len()
        invariant
            i <= candidates@.len(),
            out@.map_values(|f: PluginRequirementFailure| failure_view(f)) == startup_failures(
                candidates@.take(i as int),
                cap_views(provided@),
                *registry,
            ),
        decreases candidates.len() - i,
    {
        let c = &candidates[i];
        let caps = missing_capabilities(c.manifest.required_capabilities.as_slice(), provided.as_slice());
        let services = missing_required_services(&c.manifest, registry);
        proof {
            let t = candidates@.take(i as int + 1);
            assert(t.drop_last() =~= candidates@.take(i as int));
            assert(t.last() == *c);
        }
        if caps.len() > 0 || services.len() > 0 {
            let ghost before = out@;
            let f = PluginRequirementFailure {
                instance_id: c.instance_id.clone(),
                missing_capabilities: caps,
                missing_services: services,
            };
            out.push(f);
            assert(out@.map_values(|f: PluginRequirementFailure| failure_view(f)) =~= before.map_values(
                |f: PluginRequirementFailure| failure_view(f),
            ).push(failure_view(f)));
        }
        i = i + 1;
    }
    assert(candidates@.take(candidates@.len() as int) =~= candidates@);
    out
}

/// The debug form of a string, as `format!("{:?}", s)` writes it.
pub uninterp spec fn str_debug(s: Seq<char>) -> Seq<char>;

/// Renders `s` with `format!("{:?}", s)`: a quoted, escaped string.
#[verifier::external_body]
pub(crate) fn debug_str(s: &str) -> (r: String)
    ensures
        r@ == str_debug(s@),
{
    format!("{:?}", s)
}

/// The debug form of a capability.
pub open spec fn capability_debug(c: CapabilityView) -> Seq<char> {
    match c {
        CapabilityView::ProactiveSend => "ProactiveSend"@,
        CapabilityView::MessageDelete => "MessageDelete"@,
        CapabilityView::Reaction => "Reaction"@,
        CapabilityView::GroupModeration => "GroupModeration"@,
        CapabilityView::RichSegments => "RichSegments"@,
        CapabilityView::Custom(name) => "Custom("@ + str_debug(name) + ")"@,
    }
}

/// Items separated by `sep`.
pub open spec fn join(items: Seq<Seq<char>>, sep: Seq<char>) -> Seq<char>
    decreases items.len(),
{
    if items.len() == 0 {
        Seq::empty()
    } else if items.len() == 1 {
        items[0]
    } else {
        join(items.drop_last(), sep) + sep + items.last()
    }
}

/// A list in debug form: the items' forms, comma separated, in brackets.
pub open spec fn list_debug(items: Seq<Seq<char>>) -> Seq<char> {
    "["@ + join(items, ", "@) + "]"@
}

/// Appends `sep` (unless `count` is 0) and then `item` to `buf`: one step of joining.
pub(crate) fn push_joined(buf: &mut String, count: usize, sep: &str, item: &str)
    ensures
        count == 0 ==> final(buf)@ == old(buf)@ + item@,
        count > 0 ==> final(buf)@ == old(buf)@ + sep@ + item@,
{
    if count > 0 {
        buf.push_str(sep);
    }
    buf.push_str(item);
}

pub(crate) proof fn lemma_join_push(items: Seq<Seq<char>>, sep: Seq<char>, x: Seq<char>)
    ensures
        items.len() == 0 ==> join(items.push(x), sep) == x,
        items.len() > 0 ==> join(items.push(x), sep) == join(items, sep) + sep + x,
{
    assert(items.push(x).drop_last() =~= items);
}

/// The debug form of a list of capabilities, as `format!("{:?}", caps)` writes it.
pub fn capabilities_debug(caps: &Vec<Capability>) -> (r: String)
    ensures
        r@ == list_debug(cap_views(caps@).map_values(|c: CapabilityView| capability_debug(c))),
{
    let ghost items = cap_views(caps@).map_values(|c: CapabilityView| capability_debug(c));
    let mut body = String::new();
    let mut i: usize = 0;
    while i < caps.len()
        invariant
            i <= caps@.len(),
            items == cap_views(caps@).map_values(|c: CapabilityView| capability_debug(c)),
            body@ == join(items.take(i as int), ", "@),
        decreases caps.len() - i,
    {
        let mut item = String::new();
        match &caps[i] {
            Capability::ProactiveSend => item.push_str("ProactiveSend"),
            Capability::MessageDelete => item.push_str("MessageDelete"),
            Capability::Reaction => item.push_str("Reaction"),
            Capability::GroupModeration => item.push_str("GroupModeration"),
            Capability::RichSegments => item.push_str("RichSegments"),
            Capability::Custom(name) => {
                item.push_str("Custom(");
                item.push_str(debug_str(name.as_str()).as_str());
                item.push_str(")");
            },
        }
        assert(item@ =~= items[i as int]);
        proof {
            lemma_join_push(items.take(i as int), ", "@, items[i as int]);
            assert(items.take(i as int + 1) =~= items.take(i as int).push(items[i as int]));
        }
        push_joined(&mut body, i, ", ", item.as_str());
        i = i + 1;
    }
    assert(items.take(items.len() as int) =~= items);
    let mut out = String::new();
    out.push_str("[");
    out.push_str(body.as_str());
    out.push_str("]");
    out
}

/// The debug form of the type names of `keys`, as `format!("{:?}", names)` writes a list of
/// string slices.
pub fn service_names_debug(keys: &Vec<ServiceKey>) -> (r: String)
    ensures
        r@ == list_debug(keys@.map_values(|k: ServiceKey| str_debug(k.spec_type_label()))),
{
    let ghost items = keys@.map_values(|k: ServiceKey| str_debug(k.spec_type_label()));
    let mut body = String::new();
    let mut i: usize = 0;
    while i < keys.len()
        invariant
            i <= keys@.len(),
            items == keys@.map_values(|k: ServiceKey| str_debug(k.spec_type_label())),
            body@ == join(items.take(i as int), ", "@),
        decreases keys.len() - i,
    {
        let item = debug_str(keys[i].type_label());
        proof {
            lemma_join_push(items.take(i as int), ", "@, items[i as int]);
            assert(items.take(i as int + 1) =~= items.take(i as int).push(items[i as int]));
        }
        push_joined(&mut body, i, ", ", item.as_str());
        i = i + 1;
    }
    assert(items.take(items.len() as int) =~= items);
    let mut out = String::new();
    out.push_str("[");
    out.push_str(body.as_str());
    out.push_str("]");
    out
}

/// How a requirement failure reads: `plugin `ID` ` and then, joined by `; `, the missing
/// capabilities and the missing services (by type name), each part present only when non-empty.
pub open spec fn failure_message(f: (Seq<char>, Seq<CapabilityView>, Seq<ServiceKey>)) -> Seq<char> {
    let caps_part = "missing required capabilities: "@ + list_debug(
        f.1.map_values(|c: CapabilityView| capability_debug(c)),
    );
    let services_part = "missing required services: "@ + list_debug(
        f.2.map_values(|k: ServiceKey| str_debug(k.spec_type_label())),
    );
    let parts = if f.1.len() > 0 && f.2.len() > 0 {
        seq![caps_part, services_part]
    } else if f.1.len() > 0 {
        seq![caps_part]
    } else if f.2.len() > 0 {
        seq![services_part]
    } else {
        Seq::empty()
    };
    "plugin `"@ + f.0 + "` "@ + join(parts, "; "@)
}

impl PluginRequirementFailure {
    /// The failure as a sentence.
    pub fn message(&self) -> (r: String)
        ensures
            r@ == failure_message(failure_view(*self)),
    {
        let mut parts = String::new();
        let mut count: usize = 0;
        let ghost caps_part = "missing required capabilities: "@ + list_debug(
            cap_views(self.missing_capabilities@).map_values(|c: CapabilityView| capability_debug(c)),
        );
        let ghost services_part = "missing required services: "@ + list_debug(
            self.missing_services@.map_values(|k: ServiceKey| str_debug(k.spec_type_label())),
        );
        if self.missing_capabilities.len() > 0 {
            let mut part = String::new();
            part.push_str("missing required capabilities: ");
            part.push_str(capabilities_debug(&self.missing_capabilities).as_str());
            assert(part@ =~= caps_part);
            push_joined(&mut parts, count, "; ", part.as_str());
            count = 1;
        }
        if self.missing_services.len() > 0 {
            let mut part = String::new();
            part.push_str("missing required services: ");
            part.push_str(service_names_debug(&self.missing_services).as_str());
            assert(part@ =~= services_part);
            push_joined(&mut parts, count, "; ", part.as_str());
        }
        proof {
            reveal_with_fuel(join, 3);
            let f = failure_view(*self);
            if f.1.len() > 0 && f.2.len() > 0 {
                assert(seq![caps_part, services_part].drop_last() =~= seq![caps_part]);
            }
        }
        let mut out = String::new();
        out.push_str("plugin `");
        out.push_str(self.instance_id.as_str());
        out.push_str("` ");
        out.push_str(parts.as_str());
        out
    }
}

/// The messages of `failures`, joined by `; `.
pub open spec fn failures_message(failures: Seq<PluginRequirementFailure>) -> Seq<char> {
    join(failures.map_values(|f: PluginRequirementFailure| failure_message(failure_view(f))), "; "@)
}

/// `i` is the last failure for its instance.
pub open spec fn last_for_instance(failures: Seq<PluginRequirementFailure>, i: int) -> bool {
    forall|j: int| i < j < failures.len() ==> #[trigger] failures[j].instance_id@ != failures[i].instance_id@
}

/// No failure concerns instance `k`.
pub open spec fn untouched(failures: Seq<PluginRequirementFailure>, k: Seq<char>) -> bool {
    forall|j: int| 0 <= j < failures.len() ==> #[trigger] failures[j].instance_id@ != k
}

/// `a` is the last failure for its instance among the first `n`.
pub open spec fn last_in_prefix(failures: Seq<PluginRequirementFailure>, a: int, n: int) -> bool {
    forall|j: int| a < j < n ==> #[trigger] failures[j].instance_id@ != failures[a].instance_id@
}

/// No failure among the first `n` concerns instance `k`.
pub open spec fn untouched_upto(failures: Seq<PluginRequirementFailure>, k: Seq<char>, n: int) -> bool {
    forall|j: int| 0 <= j < n ==> #[trigger] failures[j].instance_id@ != k
}

/// The instances of the first `n` failures are marked failed with their last failure's text.
#[verifier::opaque]
pub open spec fn marked_upto(
    m: Map<Seq<char>, crate::plugin::PluginInstanceState>,
    failures: Seq<PluginRequirementFailure>,
    items: Seq<Seq<char>>,
    n: int,
) -> bool {
    forall|a: int|
        #![trigger last_in_prefix(failures, a, n)]
        0 <= a < n && last_in_prefix(failures, a, n) ==> {
            let s = state_in(m, failures[a].instance_id@);
            &&& s.lifecycle_state == PluginLifecycleState::Failed
            &&& s.last_error.deep_view() == Some(items[a])
        }
}

/// The instances that none of the first `n` failures concern are as they were.
#[verifier::opaque]
pub open spec fn unchanged_outside(
    m: Map<Seq<char>, crate::plugin::PluginInstanceState>,
    start: Map<Seq<char>, crate::plugin::PluginInstanceState>,
    failures: Seq<PluginRequirementFailure>,
    n: int,
) -> bool {
    forall|k: Seq<char>|
        #![trigger untouched_upto(failures, k, n)]
        untouched_upto(failures, k, n) ==> (m.contains_key(k) == start.contains_key(k) && (
        start.contains_key(k) ==> m[k] == start[k]))
}

proof fn lemma_record_step(
    before: Map<Seq<char>, crate::plugin::PluginInstanceState>,
    after: Map<Seq<char>, crate::plugin::PluginInstanceState>,
    start: Map<Seq<char>, crate::plugin::PluginInstanceState>,
    failures: Seq<PluginRequirementFailure>,
    items: Seq<Seq<char>>,
    i: int,
)
    requires
        0 <= i < failures.len(),
        items.len() == failures.len(),
        marked_upto(before, failures, items, i),
        unchanged_outside(before, start, failures, i),
        forall|k: Seq<char>|
            #[trigger] after.contains_key(k) == (before.contains_key(k) || k
                == failures[i].instance_id@),
        forall|k: Seq<char>|
            k != failures[i].instance_id@ && #[trigger] after.contains_key(k) ==> after[k]
                == before[k],
        state_in(after, failures[i].instance_id@).lifecycle_state == PluginLifecycleState::Failed,
        state_in(after, failures[i].instance_id@).last_error.deep_view() == Some(items[i]),
    ensures
        marked_upto(after, failures, items, i + 1),
        unchanged_outside(after, start, failures, i + 1),
{
    reveal(marked_upto);
    reveal(unchanged_outside);
    let ki = failures[i].instance_id@;
    assert forall|a: int|
        #![trigger last_in_prefix(failures, a, i + 1)]
        0 <= a < i + 1 && last_in_prefix(failures, a, i + 1) implies {
            let s = state_in(after, failures[a].instance_id@);
            &&& s.lifecycle_state == PluginLifecycleState::Failed
            &&& s.last_error.deep_view() == Some(items[a])
        } by {
        if a < i {
            let ka = failures[a].instance_id@;
            assert(failures[i].instance_id@ != ka);
            assert(last_in_prefix(failures, a, i));
            assert(after.contains_key(ka) == before.contains_key(ka));
        }
    }
    assert forall|k: Seq<char>|
        #![trigger untouched_upto(failures, k, i + 1)]
        untouched_upto(failures, k, i + 1) implies (after.contains_key(k)
        == start.contains_key(k) && (start.contains_key(k) ==> after[k] == start[k])) by {
        assert(failures[i].instance_id@ != k);
        assert(untouched_upto(failures, k, i));
    }
}

/// Marks every failing instance failed with its failure's message (the last one, when an
/// instance fails twice), and reports all failures as one error; nothing fails when the list is
/// empty.
pub fn record_requirement_failures(
    state: &mut PluginRuntimeState,
    failures: &Vec<PluginRequirementFailure>,
) -> (r: Result<(), String>)
    ensures
        r is Ok <==> failures@.len() == 0,
        r is Ok ==> final(state)@ == old(state)@,
        r matches Err(msg) ==> msg@ == failures_message(failures@),
        forall|i: int|
            0 <= i < failures@.len() && last_for_instance(failures@, i) ==> {
                let s = state_in(final(state)@, #[trigger] failures@[i].instance_id@);
                &&& s.lifecycle_state == PluginLifecycleState::Failed
                &&& s.last_error.deep_view() == Some(failure_message(failure_view(failures@[i])))
            },
        forall|k: Seq<char>|
            #[trigger] untouched(failures@, k) ==> (final(state)@.contains_key(k)
                == old(state)@.contains_key(k) && (old(state)@.contains_key(k)
                ==> final(state)@[k] == old(state)@[k])),
{
    if failures.len() == 0 {
        return Ok(());
    }
    let ghost items = failures@.map_values(
        |f: PluginRequirementFailure| failure_message(failure_view(f)),
    );
    let ghost start = state@;
    assert(start == old(state)@);
    let mut joined = String::new();
    let mut i: usize = 0;
    proof {
        reveal(marked_upto);
        reveal(unchanged_outside);
    }
    while i < failures.len()
        invariant
            i <= failures@.len(),
            items == failures@.map_values(
                |f: PluginRequirementFailure| failure_message(failure_view(f)),
            ),
            joined@ == join(items.take(i as int), "; "@),
            marked_upto(state@, failures@, items, i as int),
            unchanged_outside(state@, start, failures@, i as int),
        decreases failures.len() - i,
    {
        let f = &failures[i];
        let message = f.message();
        assert(message@ == items[i as int]);
        let ghost before = state@;
        state.record_error(f.instance_id.as_str(), message.as_str());
        proof {
            assert forall|k: Seq<char>| #[trigger] state@.contains_key(k) == (before.contains_key(k)
                || k == f.instance_id@) by {
                assert(state@.dom().contains(k) == before.dom().insert(f.instance_id@).contains(k));
            }
            lemma_record_step(before, state@, start, failures@, items, i as int);
            lemma_join_push(items.take(i as int), "; "@, items[i as int]);
            assert(items.take(i as int + 1) =~= items.take(i as int).push(items[i as int]));
        }
        push_joined(&mut joined, i, "; ", message.as_str());
        i = i + 1;
    }
    proof {
        reveal(marked_upto);
        reveal(unchanged_outside);
        assert forall|a: int|
            0 <= a < failures@.len() && last_for_instance(failures@, a) implies {
                let s = state_in(state@, #[trigger] failures@[a].instance_id@);
                &&& s.lifecycle_state == PluginLifecycleState::Failed
                &&& s.last_error.deep_view() == Some(failure_message(failure_view(failures@[a])))
            } by {
            assert(last_in_prefix(failures@, a, failures@.len() as int));
            assert(items[a] == failure_message(failure_view(failures@[a])));
        }
        assert forall|k: Seq<char>| #[trigger] untouched(failures@, k) implies (state@.contains_key(k)
            == old(state)@.contains_key(k) && (old(state)@.contains_key(k) ==> state@[k] == old(state)@[k])) by {
            assert(untouched_upto(failures@, k, failures@.len() as int)) by {
                assert forall|j: int| 0 <= j < failures@.len() implies #[trigger] failures@[j].instance_id@ != k by {
                    assert(failures@[j].instance_id@ != k);
                }
            }
        }
    }
    assert(items.take(items.len() as int) =~= items);
    Err(joined)
}

/// Whether enabling a plugin in `state` must start it: not when it is initializing, starting
/// or running already.
pub fn start_on_enable(state: PluginLifecycleState) -> (r: bool)
    ensures
        r == !(state == PluginLifecycleState::Initializing || state == PluginLifecycleState::Starting
            || state == PluginLifecycleState::Running),
{
    match state {
        PluginLifecycleState::Initializing | PluginLifecycleState::Starting
        | PluginLifecycleState::Running => false,
        PluginLifecycleState::Registered | PluginLifecycleState::Stopping
        | PluginLifecycleState::Stopped | PluginLifecycleState::Failed => true,
    }
}

/// Whether disabling a plugin in `state` must stop it: only when it is starting or running.
pub fn stop_on_disable(state: PluginLifecycleState) -> (r: bool)
    ensures
        r == (state == PluginLifecycleState::Starting || state == PluginLifecycleState::Running),
{
    match state {
        PluginLifecycleState::Starting | PluginLifecycleState::Running => true,
        PluginLifecycleState::Registered | PluginLifecycleState::Initializing
        | PluginLifecycleState::Stopping | PluginLifecycleState::Stopped
        | PluginLifecycleState::Failed => false,
    }
}

/// The enabled order after enabling plugin `ix`: appended when it was not enabled.
pub open spec fn order_after_enable(order: Seq<usize>, ix: usize) -> Seq<usize> {
    if order.contains(ix) {
        order
    } else {
        order.push(ix)
    }
}

/// The enabled order after disabling plugin `ix`: every occurrence removed.
pub open spec fn order_after_disable(order: Seq<usize>, ix: usize) -> Seq<usize>
    decreases order.len(),
{
    if order.len() == 0 {
        order
    } else if order.last() == ix {
        order_after_disable(order.drop_last(), ix)
    } else {
        order_after_disable(order.drop_last(), ix).push(order.last())
    }
}

/// No index occurs twice.
pub open spec fn no_repeats(order: Seq<usize>) -> bool {
    forall|a: int, b: int| 0 <= a < b < order.len() ==> order[a] != order[b]
}

/// The message for an instance id that is not registered.
pub open spec fn not_registered_message(id: Seq<char>) -> Seq<char> {
    "plugin instance `"@ + id + "` is not registered"@
}

/// The message for an instance id that is registered already.
pub open spec fn already_registered_message(id: Seq<char>) -> Seq<char> {
    "plugin instance `"@ + id + "` is already registered"@
}

/// The registered plugin instances by index, and the enabled ones in the order they were
/// enabled.
pub struct PluginDirectory {
    ids: Vec<String>,
    enabled_order: Vec<usize>,
}

impl PluginDirectory {
    /// The instance ids, by index.
    pub closed spec fn spec_ids(&self) -> Seq<Seq<char>> {
        self.ids@.map_values(|s: String| s@)
    }

    /// The enabled indices, in the order they were enabled.
    pub closed spec fn spec_order(&self) -> Seq<usize> {
        self.enabled_order@
    }

    /// Ids are distinct; the order holds distinct indices of registered plugins.
    #[verifier::type_invariant]
    closed spec fn wf(&self) -> bool {
        &&& forall|a: int, b: int|
            0 <= a < b < self.ids@.len() ==> self.ids@[a]@ != self.ids@[b]@
        &&& forall|i: int| 0 <= i < self.enabled_order@.len() ==> self.enabled_order@[i] < self.ids@.len()
        &&& no_repeats(self.enabled_order@)
    }

    /// What the invariant gives callers.
    pub fn lemma_wf(&self)
        ensures
            forall|a: int, b: int|
                0 <= a < b < self.spec_ids().len() ==> self.spec_ids()[a] != self.spec_ids()[b],
            forall|i: int|
                0 <= i < self.spec_order().len() ==> self.spec_order()[i] < self.spec_ids().len(),
            no_repeats(self.spec_order()),
    {
        proof {
            use_type_invariant(self);
            assert forall|a: int, b: int|
                0 <= a < b < self.spec_ids().len() implies self.spec_ids()[a] != self.spec_ids()[b] by {
                assert(self.spec_ids()[a] == self.ids@[a]@);
                assert(self.spec_ids()[b] == self.ids@[b]@);
            }
        }
    }

    pub fn new() -> (r: Self)
        ensures
            r.spec_ids().len() == 0,
            r.spec_order().len() == 0,
    {
        let r = PluginDirectory { ids: Vec::new(), enabled_order: Vec::new() };
        assert(r.spec_ids() =~= Seq::<Seq<char>>::empty());
        r
    }

    /// The number of registered instances.
    pub fn len(&self) -> (r: usize)
        ensures
            r == self.spec_ids().len(),
    {
        self.ids.len()
    }

    /// The id of instance `ix`.
    pub fn instance_id(&self, ix: usize) -> (r: &str)
        requires
            ix < self.spec_ids().len(),
        ensures
            r@ == self.spec_ids()[ix as int],
    {
        self.ids[ix].as_str()
    }

    /// The enabled instances, in the order they were enabled.
    pub fn enabled_order(&self) -> (r: &Vec<usize>)
        ensures
            r@ == self.spec_order(),
    {
        &self.enabled_order
    }

    fn find(&self, id: &str) -> (r: Option<usize>)
        ensures
            r matches Some(ix) ==> ix < self.spec_ids().len() && self.spec_ids()[ix as int] == id@,
            r is None ==> !self.spec_ids().contains(id@),
    {
        let mut i: usize = 0;
        while i < self.ids.len()
            invariant
                i <= self.ids@.len(),
                forall|j: int| 0 <= j < i ==> self.ids@[j]@ != id@,
            decreases self.ids.len() - i,
        {
            if str_equal(self.ids[i].as_str(), id) {
                return Some(i);
            }
            i = i + 1;
        }
        assert forall|j: int| 0 <= j < self.spec_ids().len() implies self.spec_ids()[j] != id@ by {
            assert(self.spec_ids()[j] == self.ids@[j]@);
        }
        None
    }

    /// The index of instance `id`.
    pub fn index_of(&self, id: &str) -> (r: Result<usize, String>)
        ensures
            r matches Ok(ix) ==> ix < self.spec_ids().len() && self.spec_ids()[ix as int] == id@,
            r is Err <==> !self.spec_ids().contains(id@),
            r matches Err(msg) ==> msg@ == not_registered_message(id@),
    {
        match self.find(id) {
            Some(ix) => Ok(ix),
            None => {
                let mut msg = String::new();
                msg.push_str("plugin instance `");
                msg.push_str(id);
                msg.push_str("` is not registered");
                Err(msg)
            },
        }
    }

    /// Whether instance `ix` is enabled.
    pub fn is_enabled(&self, ix: usize) -> (r: bool)
        ensures
            r == self.spec_order().contains(ix),
    {
        let mut i: usize = 0;
        while i < self.enabled_order.len()
            invariant
                i <= self.enabled_order@.len(),
                forall|j: int| 0 <= j < i ==> self.enabled_order@[j] != ix,
            decreases self.enabled_order.len() - i,
        {
            if self.enabled_order[i] == ix {
                return true;
            }
            i = i + 1;
        }
        false
    }

    /// Registers instance `id` at the next index, enabled or not; an id can be registered once.
    pub fn register(&mut self, id: &str, enabled: bool) -> (r: Result<usize, String>)
        ensures
            r is Err <==> old(self).spec_ids().contains(id@),
            r matches Err(msg) ==> msg@ == already_registered_message(id@) && final(self).spec_ids()
                == old(self).spec_ids() && final(self).spec_order() == old(self).spec_order(),
            r matches Ok(ix) ==> ix == old(self).spec_ids().len() && final(self).spec_ids()
                == old(self).spec_ids().push(id@) && final(self).spec_order() == (if enabled {
                old(self).spec_order().push(ix)
            } else {
                old(self).spec_order()
            }),
    {
        proof {
            use_type_invariant(&*self);
        }
        if self.find(id).is_some() {
            let mut msg = String::new();
            msg.push_str("plugin instance `");
            msg.push_str(id);
            msg.push_str("` is already registered");
            return Err(msg);
        }
        let ix = self.ids.len();
        let ghost old_ids = self.ids@;
        let mut order: Vec<usize> = Vec::new();
        std::mem::swap(&mut order, &mut self.enabled_order);
        let mut ids: Vec<String> = Vec::new();
        std::mem::swap(&mut ids, &mut self.ids);
        ids.push(owned(id));
        if enabled {
            order.push(ix);
        }
        proof {
            assert forall|a: int, b: int| 0 <= a < b < ids@.len() implies ids@[a]@ != ids@[b]@ by {
                if b == ids@.len() - 1 {
                    assert(old_ids.map_values(|s: String| s@)[a] == old_ids[a]@);
                }
            }
        }
        self.ids = ids;
        self.enabled_order = order;
        assert(self.spec_ids() =~= old(self).spec_ids().push(id@));
        Ok(ix)
    }

    /// Enables instance `id`: it joins the end of the order unless it is enabled already.
    pub fn enable(&mut self, id: &str) -> (r: Result<usize, String>)
        ensures
            final(self).spec_ids() == old(self).spec_ids(),
            r is Err <==> !old(self).spec_ids().contains(id@),
            r matches Err(msg) ==> msg@ == not_registered_message(id@) && final(self).spec_order()
                == old(self).spec_order(),
            r matches Ok(ix) ==> old(self).spec_ids()[ix as int] == id@ && final(self).spec_order()
                == order_after_enable(old(self).spec_order(), ix),
    {
        proof {
            use_type_invariant(&*self);
        }
        let ix = match self.index_of(id) {
            Ok(ix) => ix,
            Err(msg) => return Err(msg),
        };
        if !self.is_enabled(ix) {
            let mut order: Vec<usize> = Vec::new();
            std::mem::swap(&mut order, &mut self.enabled_order);
            order.push(ix);
            self.enabled_order = order;
        }
        Ok(ix)
    }

    /// Disables instance `id`: it leaves the order.
    pub fn disable(&mut self, id: &str) -> (r: Result<usize, String>)
        ensures
            final(self).spec_ids() == old(self).spec_ids(),
            r is Err <==> !old(self).spec_ids().contains(id@),
            r matches Err(msg) ==> msg@ == not_registered_message(id@) && final(self).spec_order()
                == old(self).spec_order(),
            r matches Ok(ix) ==> old(self).spec_ids()[ix as int] == id@ && final(self).spec_order()
                == order_after_disable(old(self).spec_order(), ix),
    {
        proof {
            use_type_invariant(&*self);
        }
        let ix = match self.index_of(id) {
            Ok(ix) => ix,
            Err(msg) => return Err(msg),
        };
        let ghost old_order = self.enabled_order@;
        let mut kept: Vec<usize> = Vec::new();
        let mut i: usize = 0;
        while i < self.enabled_order.len()
            invariant
                i <= self.enabled_order@.len(),
                old_order == self.enabled_order@,
                kept@ == order_after_disable(old_order.take(i as int), ix),
            decreases self.enabled_order.len() - i,
        {
            let e = self.enabled_order[i];
            proof {
                let t = old_order.take(i as int + 1);
                assert(t.drop_last() =~= old_order.take(i as int));
                assert(t.last() == e);
            }
            if e != ix {
                kept.push(e);
            }
            i = i + 1;
        }
        assert(old_order.take(old_order.len() as int) =~= old_order);
        proof {
            lemma_disable_keeps(old_order, ix, self.ids@.len());
        }
        self.enabled_order = kept;
        assert(self.spec_order() == kept@);
        Ok(ix)
    }
}

/// Removing an index keeps the others below a bound and distinct, and leaves no copy of it.
proof fn lemma_disable_keeps(s: Seq<usize>, ix: usize, bound: nat)
    requires
        forall|i: int| 0 <= i < s.len() ==> s[i] < bound,
        no_repeats(s),
    ensures
        forall|i: int| 0 <= i < order_after_disable(s, ix).len() ==> order_after_disable(s, ix)[i]
            < bound,
        no_repeats(order_after_disable(s, ix)),
        !order_after_disable(s, ix).contains(ix),
        forall|x: usize| #[trigger] order_after_disable(s, ix).contains(x) ==> s.contains(x),
    decreases s.len(),
{
    if s.len() > 0 {
        let u = s.drop_last();
        assert forall|a: int, b: int| 0 <= a < b < u.len() implies u[a] != u[b] by {
            assert(u[a] == s[a] && u[b] == s[b]);
        }
        lemma_disable_keeps(u, ix, bound);
        let f = order_after_disable(u, ix);
        if s.last() != ix {
            assert forall|i: int| 0 <= i < f.len() implies f[i] != s.last() by {
                assert(f.contains(f[i]));
                let w = choose|w: int| 0 <= w < u.len() && u[w] == f[i];
                assert(s[w] == u[w]);
            }
            assert forall|x: usize| #[trigger] f.push(s.last()).contains(x) implies s.contains(x) by {
                if x != s.last() {
                    let w = choose|w: int| 0 <= w < f.push(s.last()).len() && f.push(s.last())[w] == x;
                    assert(f.contains(x));
                    let v = choose|v: int| 0 <= v < u.len() && u[v] == x;
                    assert(s[v] == u[v]);
                } else {
                    assert(s[s.len() - 1] == x);
                }
            }
        } else {
            assert forall|x: usize| #[trigger] f.contains(x) implies s.contains(x) by {
                let v = choose|v: int| 0 <= v < u.len() && u[v] == x;
                assert(s[v] == u[v]);
            }
        }
    }
}

/// Enabling twice is enabling once.
pub proof fn law_enable_idempotent(order: Seq<usize>, ix: usize)
    ensures
        order_after_enable(order_after_enable(order, ix), ix) == order_after_enable(order, ix),
{
    if !order.contains(ix) {
        assert(order.push(ix)[order.len() as int] == ix);
    }
}

/// After enabling, the plugin is enabled and the order keeps its indices distinct; after
/// disabling, it is not enabled.
pub proof fn law_enable_disable(order: Seq<usize>, ix: usize)
    requires
        no_repeats(order),
    ensures
        order_after_enable(order, ix).contains(ix),
        no_repeats(order_after_enable(order, ix)),
        !order_after_disable(order, ix).contains(ix),
        !order_after_disable(order_after_enable(order, ix), ix).contains(ix),
{
    let e = order_after_enable(order, ix);
    if !order.contains(ix) {
        assert(e[order.len() as int] == ix);
    }
    lemma_no_index_removed(order, ix);
    lemma_no_index_removed(e, ix);
}

proof fn lemma_no_index_removed(s: Seq<usize>, ix: usize)
    ensures
        !order_after_disable(s, ix).contains(ix),
    decreases s.len(),
{
    if s.len() > 0 {
        lemma_no_index_removed(s.drop_last(), ix);
        let f = order_after_disable(s.drop_last(), ix);
        if s.last() != ix {
            assert forall|i: int| 0 <= i < f.push(s.last()).len() implies f.push(s.last())[i] != ix by {
                if i < f.len() {
                    assert(f.push(s.last())[i] == f[i]);
                }
            }
        }
    }
}


/// What reloading a plugin instance does, decided from whether the plugin can reload, whether
/// the reloaded candidate is for the same instance, and whether the instance was enabled and
/// running before.
#[derive(Clone, Copy, Debug, PartialEq, Eq, Structural)]
pub enum ReloadSteps {
    /// The plugin cannot reload: the error is recorded and the reload fails.
    NotReloadable,
    /// The candidate is for another instance: the error is recorded and the reload fails.
    CandidateMismatch,
    /// The candidate takes the old plugin's place and the routes are rebuilt; then it is
    /// initialised where `init` holds and started where `start` holds. A failure in any of
    /// these puts the old plugin back and rebuilds the routes; on success the old plugin is
    /// stopped and the instance's error cleared.
    Swap { init: bool, start: bool },
}

/// The steps of a reload.
pub open spec fn reload_steps_spec(
    reloadable: bool,
    candidate_id_matches: bool,
    was_enabled: bool,
    was_running: bool,
) -> ReloadSteps {
    if !reloadable {
        ReloadSteps::NotReloadable
    } else if !candidate_id_matches {
        ReloadSteps::CandidateMismatch
    } else {
        ReloadSteps::Swap { init: was_enabled, start: was_enabled && was_running }
    }
}

/// The steps of a reload: refused where the plugin cannot reload or the candidate is for
/// another instance; otherwise the swap, with the new plugin initialised where the instance
/// was enabled and started where it was also running.
pub fn reload_steps(
    reloadable: bool,
    candidate_id_matches: bool,
    was_enabled: bool,
    was_running: bool,
) -> (r: ReloadSteps)
    ensures
        r == reload_steps_spec(reloadable, candidate_id_matches, was_enabled, was_running),
{
    if !reloadable {
        ReloadSteps::NotReloadable
    } else if !candidate_id_matches {
        ReloadSteps::CandidateMismatch
    } else {
        ReloadSteps::Swap { init: was_enabled, start: was_enabled && was_running }
    }
}

/// The error for a plugin that cannot reload.
pub open spec fn not_reloadable_spec(instance_id: Seq<char>) -> Seq<char> {
    "plugin `"@ + instance_id + "` is not reloadable"@
}

/// The error for a plugin that cannot reload.
pub fn not_reloadable_message(instance_id: &str) -> (r: String)
    ensures
        r@ == not_reloadable_spec(instance_id@),
{
    let mut message = String::new();
    message.push_str("plugin `");
    message.push_str(instance_id);
    message.push_str("` is not reloadable");
    message
}

/// The error for a reload candidate that is for another instance.
pub open spec fn candidate_mismatch_spec(candidate_id: Seq<char>, instance_id: Seq<char>) -> Seq<
    char,
> {
    "reload candidate instance `"@ + candidate_id + "` does not match `"@ + instance_id + "`"@
}

/// The error for a reload candidate that is for another instance.
pub fn candidate_mismatch_message(candidate_id: &str, instance_id: &str) -> (r: String)
    ensures
        r@ == candidate_mismatch_spec(candidate_id@, instance_id@),
{
    let mut message = String::new();
    message.push_str("reload candidate instance `");
    message.push_str(candidate_id);
    message.push_str("` does not match `");
    message.push_str(instance_id);
    message.push_str("`");
    message
}

} // verus!
