//! The table behind dynamic plugin management: plugins in load order with their state and
//! source, and the checks that registering, enabling, disabling, unloading and reloading make.
//! Each entry carries a payload (the plugin object) that the table does not look into.
use vstd::prelude::*;

use std::path::PathBuf;

use crate::text::{owned, str_equal};

verus! {

/// `std::path::PathBuf`, carried opaquely as the file a plugin was loaded from.
#[verifier::external_type_specification]
#[verifier::external_body]
pub struct ExPathBuf(PathBuf);

/// `Clone` of a `PathBuf` yields an equal path.
pub assume_specification[ <PathBuf as Clone>::clone ](p: &PathBuf) -> (r: PathBuf)
    ensures
        r == *p,
;

/// Where a dynamic plugin is in its lifecycle.
#[derive(Debug, Clone, Copy, PartialEq, Eq, Structural)]
pub enum PluginState {
    /// Loaded but not enabled.
    Loaded,
    /// Enabled and processing events.
    Enabled,
    /// Disabled: processes no events.
    Disabled,
    /// Failed.
    Error,
}

/// Where a dynamic plugin comes from.
#[derive(Debug, Clone)]
pub enum PluginSource {
    /// Compiled into the binary.
    Static,
    /// Loaded from a WASM file.
    Wasm(PathBuf),
    /// Downloaded from a URL to a local file.
    Remote { url: String, local_path: PathBuf },
}

/// A request to the plugin manager.
#[derive(Debug, Clone)]
pub enum PluginCommand {
    Enable(String),
    Disable(String),
    Reload(String),
    Unload(String),
    LoadWasm(PathBuf),
    LoadRemote { url: String, name: String },
    List,
}

struct DynamicEntry<P> {
    id: String,
    state: PluginState,
    source: PluginSource,
    payload: P,
}

/// The message for an id that is not in the table.
pub open spec fn dyn_not_found(id: Seq<char>) -> Seq<char> {
    "Plugin '"@ + id + "' not found"@
}

/// The message for an id that is in the table already.
pub open spec fn dyn_already_registered(id: Seq<char>) -> Seq<char> {
    "Plugin '"@ + id + "' already registered"@
}

/// The message for a reload of a plugin compiled into the binary.
pub open spec fn static_reload_message() -> Seq<char> {
    "Cannot hot-reload static plugins"@
}

fn not_found_message(id: &str) -> (r: String)
    ensures
        r@ == dyn_not_found(id@),
{
    let mut msg = owned("Plugin '");
    msg.push_str(id);
    msg.push_str("' not found");
    msg
}

/// Dynamic plugins in load order, each with its id, state, source and payload.
pub struct DynamicPluginTable<P> {
    entries: Vec<DynamicEntry<P>>,
}

impl<P> DynamicPluginTable<P> {
    /// The ids, in load order.
    pub closed spec fn spec_ids(&self) -> Seq<Seq<char>> {
        self.entries@.map_values(|e: DynamicEntry<P>| e.id@)
    }

    /// The states, in load order.
    pub closed spec fn spec_states(&self) -> Seq<PluginState> {
        self.entries@.map_values(|e: DynamicEntry<P>| e.state)
    }

    /// The sources, in load order.
    pub closed spec fn spec_sources(&self) -> Seq<PluginSource> {
        self.entries@.map_values(|e: DynamicEntry<P>| e.source)
    }

    /// The payloads, in load order.
    pub closed spec fn spec_payloads(&self) -> Seq<P> {
        self.entries@.map_values(|e: DynamicEntry<P>| e.payload)
    }

    /// Ids are distinct.
    #[verifier::type_invariant]
    closed spec fn wf(&self) -> bool {
        forall|a: int, b: int|
            0 <= a < b < self.entries@.len() ==> self.entries@[a].id@ != self.entries@[b].id@
    }

    pub fn new() -> (r: Self)
        ensures
            r.spec_ids().len() == 0,
    {
        let r = DynamicPluginTable { entries: Vec::new() };
        assert(r.spec_ids() =~= Seq::<Seq<char>>::empty());
        r
    }

    /// How many plugins the table holds.
    pub fn count(&self) -> (r: usize)
        ensures
            r == self.spec_ids().len(),
    {
        self.entries.len()
    }

    /// Where `id` stands in load order.
    pub fn position(&self, id: &str) -> (r: Option<usize>)
        ensures
            r matches Some(i) ==> i < self.spec_ids().len() && self.spec_ids()[i as int] == id@,
            r is None ==> !self.spec_ids().contains(id@),
    {
        let mut i: usize = 0;
        while i < self.entries.len()
            invariant
                i <= self.entries@.len(),
                forall|j: int| 0 <= j < i ==> self.entries@[j].id@ != id@,
            decreases self.entries.len() - i,
        {
            if str_equal(self.entries[i].id.as_str(), id) {
                return Some(i);
            }
            i = i + 1;
        }
        assert forall|j: int| 0 <= j < self.spec_ids().len() implies self.spec_ids()[j] != id@ by {
            assert(self.spec_ids()[j] == self.entries@[j].id@);
        }
        None
    }

    /// Whether the table holds `id`.
    pub fn has(&self, id: &str) -> (r: bool)
        ensures
            r == self.spec_ids().contains(id@),
    {
        self.position(id).is_some()
    }

    /// The state of `id`, if the table holds it.
    pub fn state(&self, id: &str) -> (r: Option<PluginState>)
        ensures
            r is Some <==> self.spec_ids().contains(id@),
            r matches Some(s) ==> exists|i: int|
                0 <= i < self.spec_ids().len() && self.spec_ids()[i] == id@ && self.spec_states()[i]
                    == s,
    {
        match self.position(id) {
            Some(i) => {
                assert(self.spec_states()[i as int] == self.entries@[i as int].state);
                Some(self.entries[i].state)
            },
            None => None,
        }
    }

    /// The id at position `i`.
    pub fn id_at(&self, i: usize) -> (r: &str)
        requires
            i < self.spec_ids().len(),
        ensures
            r@ == self.spec_ids()[i as int],
    {
        self.entries[i].id.as_str()
    }

    /// The state at position `i`.
    pub fn state_at(&self, i: usize) -> (r: PluginState)
        requires
            i < self.spec_ids().len(),
        ensures
            r == self.spec_states()[i as int],
    {
        self.entries[i].state
    }

    /// The payload at position `i`.
    pub fn payload_at(&self, i: usize) -> (r: &P)
        requires
            i < self.spec_ids().len(),
        ensures
            *r == self.spec_payloads()[i as int],
    {
        &self.entries[i].payload
    }

    /// Adds a plugin at the end of the load order, loaded but not enabled; an id can be
    /// registered once.
    pub fn register(&mut self, id: &str, source: PluginSource, payload: P) -> (r: Result<(), String>)
        ensures
            r is Err <==> old(self).spec_ids().contains(id@),
            r matches Err(msg) ==> msg@ == dyn_already_registered(id@) && final(self).spec_ids()
                == old(self).spec_ids() && final(self).spec_states() == old(self).spec_states(),
            r is Ok ==> final(self).spec_ids() == old(self).spec_ids().push(id@) && final(self).spec_states() == old(self).spec_states().push(PluginState::Loaded)
                && final(self).spec_sources() == old(self).spec_sources().push(source)
                && final(self).spec_payloads() == old(self).spec_payloads().push(payload),
    {
        proof {
            use_type_invariant(&*self);
        }
        if self.position(id).is_some() {
            let mut msg = owned("Plugin '");
            msg.push_str(id);
            msg.push_str("' already registered");
            return Err(msg);
        }
        let ghost old_entries = self.entries@;
        let mut entries: Vec<DynamicEntry<P>> = Vec::new();
        std::mem::swap(&mut entries, &mut self.entries);
        entries.push(DynamicEntry { id: owned(id), state: PluginState::Loaded, source, payload });
        proof {
            assert forall|a: int, b: int| 0 <= a < b < entries@.len() implies entries@[a].id@
                != entries@[b].id@ by {
                if b == entries@.len() - 1 {
                    assert(old_entries.map_values(|e: DynamicEntry<P>| e.id@)[a] == old_entries[a].id@);
                } else {
                    assert(entries@[a] == old_entries[a] && entries@[b] == old_entries[b]);
                }
            }
        }
        self.entries = entries;
        assert(self.spec_ids() =~= old(self).spec_ids().push(id@));
        assert(self.spec_states() =~= old(self).spec_states().push(PluginState::Loaded));
        assert(self.spec_sources() =~= old(self).spec_sources().push(source));
        assert(self.spec_payloads() =~= old(self).spec_payloads().push(payload));
        Ok(())
    }

    /// The position of `id`, or the error that enabling, disabling or reloading a missing
    /// plugin reports.
    pub fn require(&self, id: &str) -> (r: Result<usize, String>)
        ensures
            r is Err <==> !self.spec_ids().contains(id@),
            r matches Ok(i) ==> i < self.spec_ids().len() && self.spec_ids()[i as int] == id@,
            r matches Err(msg) ==> msg@ == dyn_not_found(id@),
    {
        match self.position(id) {
            Some(i) => Ok(i),
            None => Err(not_found_message(id)),
        }
    }

    /// Sets the state of `id` when the table holds it (enabling and disabling end here once
    /// the plugin's hook succeeded); otherwise nothing changes.
    pub fn set_state(&mut self, id: &str, state: PluginState)
        ensures
            final(self).spec_ids() == old(self).spec_ids(),
            final(self).spec_sources() == old(self).spec_sources(),
            final(self).spec_payloads() == old(self).spec_payloads(),
            final(self).spec_states() == (match old(self).spec_ids().index_of_first(id@) {
                Some(i) => old(self).spec_states().update(i, state),
                None => old(self).spec_states(),
            }),
    {
        proof {
            use_type_invariant(&*self);
            lemma_first_is_position(old(self).spec_ids(), id@);
        }
        match self.position(id) {
            Some(i) => {
                proof {
                    lemma_unique_position(old(self).spec_ids(), id@, i as int);
                }
                let mut entries: Vec<DynamicEntry<P>> = Vec::new();
                std::mem::swap(&mut entries, &mut self.entries);
                let mut e = entries.remove(i);
                e.state = state;
                entries.insert(i, e);
                self.entries = entries;
                assert(self.spec_ids() =~= old(self).spec_ids());
                assert(self.spec_sources() =~= old(self).spec_sources());
                assert(self.spec_payloads() =~= old(self).spec_payloads());
                assert(self.spec_states() =~= old(self).spec_states().update(i as int, state));
            },
            None => {
                proof {
                    old(self).spec_ids().index_of_first_ensures(id@);
                }
            },
        }
    }

    /// Removes `id` from the table and the load order, handing back its payload.
    pub fn unload(&mut self, id: &str) -> (r: Result<P, String>)
        ensures
            r is Err <==> !old(self).spec_ids().contains(id@),
            r matches Err(msg) ==> msg@ == dyn_not_found(id@) && final(self).spec_ids() == old(self).spec_ids() && final(self).spec_states() == old(self).spec_states(),
            r matches Ok(p) ==> exists|i: int|
                0 <= i < old(self).spec_ids().len() && old(self).spec_ids()[i] == id@ && p == old(self).spec_payloads()[i] && final(self).spec_ids() == old(self).spec_ids().remove(i)
                    && final(self).spec_states() == old(self).spec_states().remove(i)
                    && final(self).spec_payloads() == old(self).spec_payloads().remove(i),
    {
        proof {
            use_type_invariant(&*self);
        }
        match self.position(id) {
            Some(i) => {
                let ghost old_entries = self.entries@;
                let mut entries: Vec<DynamicEntry<P>> = Vec::new();
                std::mem::swap(&mut entries, &mut self.entries);
                let e = entries.remove(i);
                proof {
                    assert forall|a: int, b: int| 0 <= a < b < entries@.len() implies entries@[a].id@
                        != entries@[b].id@ by {
                        let ia = if a < i { a } else { a + 1 };
                        let ib = if b < i { b } else { b + 1 };
                        assert(entries@[a] == old_entries[ia] && entries@[b] == old_entries[ib]);
                    }
                }
                self.entries = entries;
                assert(self.spec_ids() =~= old(self).spec_ids().remove(i as int));
                assert(self.spec_states() =~= old(self).spec_states().remove(i as int));
                assert(self.spec_payloads() =~= old(self).spec_payloads().remove(i as int));
                assert(old(self).spec_payloads()[i as int] == e.payload);
                Ok(e.payload)
            },
            None => Err(not_found_message(id)),
        }
    }

    /// The file to reload `id` from: its WASM file, or the local copy of a remote plugin.
    /// Plugins compiled into the binary cannot be reloaded.
    pub fn reload_source(&self, id: &str) -> (r: Result<PathBuf, String>)
        ensures
            !self.spec_ids().contains(id@) ==> (r matches Err(msg) && msg@ == dyn_not_found(id@)),
            forall|i: int|
                0 <= i < self.spec_ids().len() && self.spec_ids()[i] == id@ ==> match self.spec_sources()[i] {
                    PluginSource::Static => (r matches Err(msg) && msg@ == static_reload_message()),
                    PluginSource::Wasm(path) => r == Ok::<PathBuf, String>(path),
                    PluginSource::Remote { local_path, .. } => r == Ok::<PathBuf, String>(local_path),
                },
    {
        proof {
            use_type_invariant(self);
        }
        match self.position(id) {
            Some(i) => {
                proof {
                    lemma_unique_position(self.spec_ids(), id@, i as int);
                    assert(self.spec_sources()[i as int] == self.entries@[i as int].source);
                }
                match &self.entries[i].source {
                    PluginSource::Wasm(path) => Ok(path.clone()),
                    PluginSource::Remote { local_path, .. } => Ok(local_path.clone()),
                    PluginSource::Static => Err(owned("Cannot hot-reload static plugins")),
                }
            },
            None => Err(not_found_message(id)),
        }
    }

    /// Puts a freshly loaded payload in place of `id`'s and marks it enabled (the end of a
    /// successful reload); nothing changes when the table no longer holds `id`.
    pub fn replace_payload(&mut self, id: &str, payload: P)
        ensures
            final(self).spec_ids() == old(self).spec_ids(),
            final(self).spec_sources() == old(self).spec_sources(),
            match old(self).spec_ids().index_of_first(id@) {
                Some(i) => final(self).spec_states() == old(self).spec_states().update(
                    i,
                    PluginState::Enabled,
                ) && final(self).spec_payloads() == old(self).spec_payloads().update(i, payload),
                None => final(self).spec_states() == old(self).spec_states() && final(self).spec_payloads() == old(self).spec_payloads(),
            },
    {
        proof {
            use_type_invariant(&*self);
            lemma_first_is_position(old(self).spec_ids(), id@);
        }
        match self.position(id) {
            Some(i) => {
                proof {
                    lemma_unique_position(old(self).spec_ids(), id@, i as int);
                }
                let mut entries: Vec<DynamicEntry<P>> = Vec::new();
                std::mem::swap(&mut entries, &mut self.entries);
                let e = entries.remove(i);
                entries.insert(
                    i,
                    DynamicEntry { id: e.id, state: PluginState::Enabled, source: e.source, payload },
                );
                self.entries = entries;
                assert(self.spec_ids() =~= old(self).spec_ids());
                assert(self.spec_sources() =~= old(self).spec_sources());
                assert(self.spec_payloads() =~= old(self).spec_payloads().update(i as int, payload));
                assert(self.spec_states() =~= old(self).spec_states().update(
                    i as int,
                    PluginState::Enabled,
                ));
            },
            None => {
                proof {
                    old(self).spec_ids().index_of_first_ensures(id@);
                }
            },
        }
    }

    /// The positions of the enabled plugins, in load order (the plugins that events reach).
    pub fn enabled_positions(&self) -> (r: Vec<usize>)
        ensures
            forall|k: int| 0 <= k < r@.len() ==> r@[k] < self.spec_ids().len(),
            r@ == enabled_in(self.spec_states(), self.spec_states().len() as int),
    {
        let ghost st = self.spec_states();
        let mut out: Vec<usize> = Vec::new();
        let mut i: usize = 0;
        while i < self.entries.len()
            invariant
                i <= self.entries@.len(),
                st == self.spec_states(),
                st.len() == self.entries@.len(),
                out@ == enabled_in(st, i as int),
                forall|k: int| 0 <= k < out@.len() ==> out@[k] < i,
            decreases self.entries.len() - i,
        {
            assert(st[i as int] == self.entries@[i as int].state);
            if self.entries[i].state == PluginState::Enabled {
                out.push(i);
            }
            i = i + 1;
        }
        out
    }
}

/// The positions among the first `n` whose state is enabled, in order.
pub open spec fn enabled_in(states: Seq<PluginState>, n: int) -> Seq<usize>
    decreases n,
{
    if n <= 0 {
        Seq::empty()
    } else if states[n - 1] == PluginState::Enabled {
        enabled_in(states, n - 1).push((n - 1) as usize)
    } else {
        enabled_in(states, n - 1)
    }
}

proof fn lemma_unique_position(ids: Seq<Seq<char>>, id: Seq<char>, i: int)
    requires
        0 <= i < ids.len(),
        ids[i] == id,
        forall|a: int, b: int| 0 <= a < b < ids.len() ==> ids[a] != ids[b],
    ensures
        ids.index_of_first(id) == Some(i),
{
    ids.index_of_first_ensures(id);
    match ids.index_of_first(id) {
        Some(j) => {
            if j < i {
                assert(ids[j] != ids[i]);
            }
        },
        None => {},
    }
}

proof fn lemma_first_is_position(ids: Seq<Seq<char>>, id: Seq<char>)
    ensures
        ids.index_of_first(id) matches Some(i) ==> 0 <= i < ids.len() && ids[i] == id,
{
    ids.index_of_first_ensures(id);
}

} // verus!
