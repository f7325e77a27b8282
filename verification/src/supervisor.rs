//! What the supervisor knows of bots: their definitions, the plugin instances they run, and
//! their status.
use vstd::prelude::*;

use crate::assoc::StringMap;
use crate::model::{BotId, PlatformId};
use crate::plugin::PluginLifecycleState;
use crate::runtime::RuntimeStatus;
use crate::sorting::{StrKey, distinct_keys, lemma_sort_by_key, sort_by_key, sort_by_str_key, sorted_by_key};
use crate::text::owned;

verus! {

/// A plugin instance that a bot runs.
#[derive(Clone, Debug, PartialEq, Eq)]
pub struct PluginInstanceSpec {
    pub instance_id: String,
    pub kind: String,
    pub enabled: bool,
}

impl PluginInstanceSpec {
    /// An enabled instance.
    pub fn new(instance_id: &str, kind: &str) -> (r: Self)
        ensures
            r.instance_id@ == instance_id@,
            r.kind@ == kind@,
            r.enabled,
    {
        PluginInstanceSpec { instance_id: owned(instance_id), kind: owned(kind), enabled: true }
    }

    /// The same instance, disabled.
    pub fn disabled(self) -> (r: Self)
        ensures
            r == (PluginInstanceSpec { enabled: false, ..self }),
    {
        PluginInstanceSpec { enabled: false, ..self }
    }
}

/// A bot: its id, platform, adapter and plugin instances.
#[derive(Clone, Debug, PartialEq, Eq)]
pub struct BotDefinition {
    pub bot_id: BotId,
    pub platform: PlatformId,
    pub adapter: String,
    pub plugins: Vec<PluginInstanceSpec>,
}

impl BotDefinition {
    /// A bot with no plugins.
    pub fn new(bot_id: &str, platform: &str, adapter: &str) -> (r: Self)
        ensures
            r.bot_id.spec_str() == bot_id@,
            r.platform.spec_str() == platform@,
            r.adapter@ == adapter@,
            r.plugins@.len() == 0,
    {
        BotDefinition {
            bot_id: BotId::new(bot_id),
            platform: PlatformId::new(platform),
            adapter: owned(adapter),
            plugins: Vec::new(),
        }
    }

    /// The same bot, also running `plugin`.
    pub fn with_plugin(self, plugin: PluginInstanceSpec) -> (r: Self)
        ensures
            r == (BotDefinition { plugins: r.plugins, ..self }),
            r.plugins@ == self.plugins@.push(plugin),
    {
        let mut s = self;
        s.plugins.push(plugin);
        s
    }
}

/// A stored plugin configuration at a version.
#[derive(Clone, Debug, PartialEq, Eq)]
pub struct PluginConfigSnapshot {
    pub version: u64,
    pub content: String,
}

/// What the supervisor reports of a bot.
#[derive(Clone, Debug, PartialEq, Eq)]
pub struct BotStatus {
    pub bot_id: BotId,
    pub platform: PlatformId,
    pub adapter: String,
    pub runtime: RuntimeStatus,
}

/// `"<noun> `<id>`<tail>"`: how the supervisor names an entry in its messages.
pub open spec fn entry_message(noun: Seq<char>, id: Seq<char>, tail: Seq<char>) -> Seq<char> {
    noun + " `"@ + id + "`"@ + tail
}

fn entry_message_text(noun: &str, id: &str, tail: &str) -> (r: String)
    ensures
        r@ == entry_message(noun@, id@, tail@),
{
    let mut m = owned(noun);
    m.push_str(" `");
    m.push_str(id);
    m.push_str("`");
    m.push_str(tail);
    m
}

/// The message for an entry that is not there.
pub open spec fn missing_message(noun: Seq<char>, id: Seq<char>) -> Seq<char> {
    entry_message(noun, id, " is not registered"@)
}

/// The message for an entry that is there already.
pub open spec fn exists_message(noun: Seq<char>, id: Seq<char>) -> Seq<char> {
    entry_message(noun, id, " already exists"@)
}

/// The message for applying the configuration of a plugin that has none stored.
pub fn no_config_message(instance_id: &str) -> (r: String)
    ensures
        r@ == entry_message("plugin"@, instance_id@, " does not have persisted config"@),
{
    entry_message_text("plugin", instance_id, " does not have persisted config")
}

/// Entries by name, each name once, with the noun that messages call an entry by
/// (`bot`, `plugin instance`, `plugin kind`).
pub struct Registry<T> {
    noun: String,
    entries: StringMap<T>,
}

impl<T> Registry<T> {
    /// The entries by name.
    pub closed spec fn spec_map(&self) -> Map<Seq<char>, T> {
        self.entries@
    }

    /// The noun of the messages.
    pub closed spec fn spec_noun(&self) -> Seq<char> {
        self.noun@
    }

    /// An empty registry whose messages call an entry `noun`.
    pub fn new(noun: &str) -> (r: Self)
        ensures
            r.spec_map() == Map::<Seq<char>, T>::empty(),
            r.spec_noun() == noun@,
    {
        Registry { noun: owned(noun), entries: StringMap::new() }
    }

    /// The number of entries.
    pub fn len(&self) -> (r: usize)
        ensures
            r == self.spec_map().len(),
    {
        self.entries.len()
    }

    /// Whether `name` is there.
    pub fn contains(&self, name: &str) -> (r: bool)
        ensures
            r == self.spec_map().contains_key(name@),
    {
        self.entries.contains_key(name)
    }

    /// Adds `value` under `name`; refused when the name is taken.
    pub fn register(&mut self, name: &str, value: T) -> (r: Result<(), String>)
        ensures
            r is Ok <==> !old(self).spec_map().contains_key(name@),
            r is Ok ==> final(self).spec_map() == old(self).spec_map().insert(name@, value),
            r matches Err(m) ==> m@ == exists_message(old(self).spec_noun(), name@) && final(self).spec_map() == old(self).spec_map(),
            final(self).spec_noun() == old(self).spec_noun(),
    {
        if self.entries.contains_key(name) {
            return Err(entry_message_text(self.noun.as_str(), name, " already exists"));
        }
        let _ = self.entries.insert(name, value);
        Ok(())
    }

    /// Adds or replaces the entry `name`.
    pub fn put(&mut self, name: &str, value: T)
        ensures
            final(self).spec_map() == old(self).spec_map().insert(name@, value),
            final(self).spec_noun() == old(self).spec_noun(),
    {
        let _ = self.entries.insert(name, value);
    }

    /// Takes out the entry `name`; refused when it is not there.
    pub fn remove(&mut self, name: &str) -> (r: Result<T, String>)
        ensures
            r is Ok <==> old(self).spec_map().contains_key(name@),
            r matches Ok(v) ==> v == old(self).spec_map()[name@] && final(self).spec_map() == old(self).spec_map().remove(name@),
            r matches Err(m) ==> m@ == missing_message(old(self).spec_noun(), name@) && final(self).spec_map() == old(self).spec_map(),
            final(self).spec_noun() == old(self).spec_noun(),
    {
        match self.entries.remove(name) {
            Some(v) => Ok(v),
            None => Err(entry_message_text(self.noun.as_str(), name, " is not registered")),
        }
    }

    /// The entry `name`; refused when it is not there.
    pub fn get(&self, name: &str) -> (r: Result<&T, String>)
        ensures
            r is Ok <==> self.spec_map().contains_key(name@),
            r matches Ok(v) ==> *v == self.spec_map()[name@],
            r matches Err(m) ==> m@ == missing_message(self.spec_noun(), name@),
    {
        match self.entries.get(name) {
            Some(v) => Ok(v),
            None => Err(entry_message_text(self.noun.as_str(), name, " is not registered")),
        }
    }

    /// The names, in ascending order.
    pub fn names(&self) -> (r: Vec<String>)
        ensures
            sorted_by_key(r@),
            distinct_keys(r@),
            forall|i: int| 0 <= i < r@.len() ==> self.spec_map().contains_key(#[trigger] r@[i]@),
            forall|k: Seq<char>| #[trigger]
                self.spec_map().contains_key(k) ==> exists|i: int| 0 <= i < r@.len() && r@[i]@ == k,
    {
        self.entries.lemma_view();
        let ghost e = self.entries.spec_entries();
        let mut found: Vec<String> = Vec::new();
        let mut i: usize = 0;
        while i < self.entries.entry_count()
            invariant
                i <= e.len(),
                e == self.entries.spec_entries(),
                distinct_keys(e),
                found@.len() == i,
                forall|j: int| 0 <= j < i ==> #[trigger] found@[j]@ == e[j].0@,
            decreases e.len() - i,
        {
            let key = owned(self.entries.key_at(i).as_str());
            found.push(key);
            i = i + 1;
        }
        let ghost fv = found@;
        proof {
            assert forall|a: int, b: int| 0 <= a < fv.len() && 0 <= b < fv.len() && a != b implies
                #[trigger] fv[a].spec_key() != #[trigger] fv[b].spec_key() by {
                assert(e[a].spec_key() != e[b].spec_key());
            }
            lemma_sort_by_key(fv);
        }
        let r = sort_by_str_key(found);
        proof {
            broadcast use vstd::seq_lib::group_to_multiset_ensures;

            assert forall|i: int| 0 <= i < r@.len() implies self.spec_map().contains_key(
                #[trigger] r@[i]@,
            ) by {
                assert(r@.to_multiset().count(r@[i]) > 0);
                assert(fv.contains(r@[i]));
                let j = choose|j: int| 0 <= j < fv.len() && fv[j] == r@[i];
                assert(fv[j]@ == e[j].0@);
            }
            assert forall|k: Seq<char>| #[trigger] self.spec_map().contains_key(k) implies exists|i: int|
                0 <= i < r@.len() && r@[i]@ == k by {
                let m = choose|m: int| 0 <= m < e.len() && e[m].0@ == k;
                assert(fv[m]@ == e[m].0@);
                assert(fv.to_multiset().count(fv[m]) > 0);
                assert(r@.contains(fv[m]));
            }
        }
        r
    }
}

/// An entry registered under a free name is found under it with the value given; a second
/// registration of the name is refused; once removed, the name is free again.
pub proof fn law_register_then_get<T>(m: Map<Seq<char>, T>, name: Seq<char>, value: T)
    requires
        !m.contains_key(name),
    ensures
        m.insert(name, value).contains_key(name),
        m.insert(name, value)[name] == value,
        m.insert(name, value).remove(name) =~= m,
{
}

/// What preparing a plugin instance does, decided before any of it runs.
#[derive(Clone, Copy, Debug, PartialEq, Eq)]
pub struct PrepareSteps {
    /// Only mark the instance stopped: it is disabled, asked to run, and gets no configuration.
    pub stop_only: bool,
    /// Create and initialise the instance (there is none yet).
    pub create: bool,
    /// Apply the configuration that came with the request.
    pub apply_config: bool,
    /// Start the instance (it was just created and is to run).
    pub start: bool,
    /// The state the instance ends in, when it changes.
    pub end_state: Option<PluginLifecycleState>,
}

/// The steps for preparing an instance that is `enabled` or not, when the caller wants it
/// running (`ensure_running`), brings a configuration (`has_config`), and the instance
/// exists already (`exists`) or not.
pub fn prepare_steps(enabled: bool, ensure_running: bool, has_config: bool, exists: bool) -> (r:
    PrepareSteps)
    ensures
        r.stop_only == (!enabled && ensure_running && !has_config),
        r.stop_only ==> !r.create && !r.apply_config && !r.start && r.end_state == Some(
            PluginLifecycleState::Stopped,
        ),
        !r.stop_only ==> {
            &&& r.create == !exists
            &&& r.apply_config == has_config
            &&& r.start == (ensure_running && enabled && !exists)
            &&& r.end_state == if ensure_running && enabled {
                Some(PluginLifecycleState::Running)
            } else if !exists {
                Some(PluginLifecycleState::Stopped)
            } else {
                None
            }
        },
{
    if !enabled && ensure_running && !has_config {
        return PrepareSteps {
            stop_only: true,
            create: false,
            apply_config: false,
            start: false,
            end_state: Some(PluginLifecycleState::Stopped),
        };
    }
    let run = ensure_running && enabled;
    let end_state = if run {
        Some(PluginLifecycleState::Running)
    } else if !exists {
        Some(PluginLifecycleState::Stopped)
    } else {
        None
    };
    PrepareSteps {
        stop_only: false,
        create: !exists,
        apply_config: has_config,
        start: run && !exists,
        end_state,
    }
}

} // verus!
