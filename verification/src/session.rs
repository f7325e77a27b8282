//! Conversation sessions: keys, revisions, expiry, and the in-memory session table with its
//! optimistic, revision-checked updates. Times are milliseconds on a monotonic clock that the
//! caller reads.
use vstd::prelude::*;

use crate::text::{owned, str_equal};

verus! {

/// What a conversation is scoped to.
#[derive(Debug, Clone, PartialEq, Eq, Hash)]
pub enum ConversationScope {
    User,
    Channel,
    Group,
    PluginInstance,
    Custom(String),
}

impl ConversationScope {
    pub fn custom(key: &str) -> (r: Self)
        ensures
            r matches ConversationScope::Custom(k) && k@ == key@,
    {
        ConversationScope::Custom(owned(key))
    }
}

/// Identifies a conversation: bot, platform, plugin, user and, where there is one, channel.
#[derive(Debug, Clone, PartialEq, Eq, Hash)]
pub struct SessionKey {
    pub bot_id: String,
    pub platform: String,
    pub plugin: String,
    pub user_id: String,
    pub channel_id: Option<String>,
}

/// The abstract value of a [`SessionKey`].
pub struct SessionKeyView {
    pub bot_id: Seq<char>,
    pub platform: Seq<char>,
    pub plugin: Seq<char>,
    pub user_id: Seq<char>,
    pub channel_id: Option<Seq<char>>,
}

impl View for SessionKey {
    type V = SessionKeyView;

    open spec fn view(&self) -> SessionKeyView {
        SessionKeyView {
            bot_id: self.bot_id@,
            platform: self.platform@,
            plugin: self.plugin@,
            user_id: self.user_id@,
            channel_id: self.channel_id.deep_view(),
        }
    }
}

fn same_opt(a: &Option<String>, b: &Option<String>) -> (r: bool)
    ensures
        r == (a.deep_view() == b.deep_view()),
{
    match (a, b) {
        (Some(x), Some(y)) => str_equal(x.as_str(), y.as_str()),
        (None, None) => true,
        _ => false,
    }
}

fn copy_opt(a: &Option<String>) -> (r: Option<String>)
    ensures
        r.deep_view() == a.deep_view(),
{
    match a {
        Some(x) => Some(x.clone()),
        None => None,
    }
}

impl SessionKey {
    pub fn new(bot_id: &str, platform: &str, plugin: &str, user_id: &str, channel_id: Option<&str>) -> (r:
        Self)
        ensures
            r@ == (SessionKeyView {
                bot_id: bot_id@,
                platform: platform@,
                plugin: plugin@,
                user_id: user_id@,
                channel_id: match channel_id {
                    Some(c) => Some(c@),
                    None => None,
                },
            }),
    {
        let channel_id = match channel_id {
            Some(c) => Some(owned(c)),
            None => None,
        };
        SessionKey {
            bot_id: owned(bot_id),
            platform: owned(platform),
            plugin: owned(plugin),
            user_id: owned(user_id),
            channel_id,
        }
    }

    /// Whether two keys name the same conversation.
    pub fn same(&self, other: &SessionKey) -> (r: bool)
        ensures
            r == (self@ == other@),
    {
        str_equal(self.bot_id.as_str(), other.bot_id.as_str()) && str_equal(
            self.platform.as_str(),
            other.platform.as_str(),
        ) && str_equal(self.plugin.as_str(), other.plugin.as_str()) && str_equal(
            self.user_id.as_str(),
            other.user_id.as_str(),
        ) && same_opt(&self.channel_id, &other.channel_id)
    }

    /// A copy of this key.
    pub fn copy(&self) -> (r: Self)
        ensures
            r@ == self@,
    {
        SessionKey {
            bot_id: self.bot_id.clone(),
            platform: self.platform.clone(),
            plugin: self.plugin.clone(),
            user_id: self.user_id.clone(),
            channel_id: copy_opt(&self.channel_id),
        }
    }
}

/// A conversation at a revision: what a writer must present to update it.
#[derive(Debug, Clone, PartialEq, Eq)]
pub struct SessionCursor {
    key: SessionKey,
    revision: u64,
}

impl SessionCursor {
    pub closed spec fn spec_key(&self) -> SessionKeyView {
        self.key@
    }

    pub closed spec fn spec_revision(&self) -> u64 {
        self.revision
    }

    pub fn new(key: SessionKey, revision: u64) -> (r: Self)
        ensures
            r.spec_key() == key@,
            r.spec_revision() == revision,
    {
        SessionCursor { key, revision }
    }

    pub fn key(&self) -> (r: &SessionKey)
        ensures
            r@ == self.spec_key(),
    {
        &self.key
    }

    pub fn revision(&self) -> (r: u64)
        ensures
            r == self.spec_revision(),
    {
        self.revision
    }
}

/// Where a conversation stands.
#[derive(Debug, Clone, PartialEq, Eq)]
pub enum ConversationStatus {
    Waiting,
    Paused { reason: String },
    Rejected { prompt: String },
    Finished,
}

/// The fields that describe a status in a conversation's saved state: its kind, and the reason
/// or prompt where it has one.
pub open spec fn status_fields_spec(status: ConversationStatus) -> Seq<(Seq<char>, Seq<char>)> {
    match status {
        ConversationStatus::Waiting => seq![("kind"@, "waiting"@)],
        ConversationStatus::Paused { reason } => seq![("kind"@, "paused"@), ("reason"@, reason@)],
        ConversationStatus::Rejected { prompt } => seq![("kind"@, "rejected"@), ("prompt"@, prompt@)],
        ConversationStatus::Finished => seq![("kind"@, "finished"@)],
    }
}

fn field(name: &str, value: &str) -> (r: (String, String))
    ensures
        r.0@ == name@,
        r.1@ == value@,
{
    (owned(name), owned(value))
}

/// The fields of `status`, in order, as saved conversation state records them.
pub fn status_fields(status: &ConversationStatus) -> (r: Vec<(String, String)>)
    ensures
        r@.map_values(|p: (String, String)| (p.0@, p.1@)) == status_fields_spec(*status),
{
    let mut out: Vec<(String, String)> = Vec::new();
    match status {
        ConversationStatus::Waiting => {
            out.push(field("kind", "waiting"));
        },
        ConversationStatus::Paused { reason } => {
            out.push(field("kind", "paused"));
            out.push(field("reason", reason.as_str()));
        },
        ConversationStatus::Rejected { prompt } => {
            out.push(field("kind", "rejected"));
            out.push(field("prompt", prompt.as_str()));
        },
        ConversationStatus::Finished => {
            out.push(field("kind", "finished"));
        },
    }
    assert(out@.map_values(|p: (String, String)| (p.0@, p.1@)) =~= status_fields_spec(*status));
    out
}

/// Why a revision-checked update failed.
#[derive(Debug, Clone, Copy, PartialEq, Eq)]
pub enum SessionError {
    NotFound,
    Expired,
    RevisionConflict { expected: u64, actual: u64 },
}

impl SessionError {
    /// The error as a sentence.
    pub fn to_display_string(&self) -> (r: String)
        ensures
            r@ == session_error_text(*self),
    {
        match self {
            SessionError::NotFound => owned("session not found"),
            SessionError::Expired => owned("session expired"),
            SessionError::RevisionConflict { expected, actual } => {
                let mut s = owned("session revision conflict: expected=");
                s.push_str(crate::text::decimal(*expected).as_str());
                s.push_str(", actual=");
                s.push_str(crate::text::decimal(*actual).as_str());
                s
            },
        }
    }
}

/// How a session error reads.
pub open spec fn session_error_text(e: SessionError) -> Seq<char> {
    match e {
        SessionError::NotFound => "session not found"@,
        SessionError::Expired => "session expired"@,
        SessionError::RevisionConflict { expected, actual } => "session revision conflict: expected="@
            + crate::text::decimal_spec(expected as nat) + ", actual="@
            + crate::text::decimal_spec(actual as nat),
    }
}

/// A saved conversation state, its revision, and when it expires (if it does).
#[derive(Debug, Clone)]
pub struct SessionRecord {
    pub state: serde_json::Value,
    pub revision: u64,
    pub expires_at: Option<u64>,
}

/// A record expires once the clock reaches its expiry time.
pub open spec fn expired_at(r: SessionRecord, now: u64) -> bool {
    match r.expires_at {
        Some(at) => at <= now,
        None => false,
    }
}

impl SessionRecord {
    pub fn is_expired(&self, now: u64) -> (r: bool)
        ensures
            r == expired_at(*self, now),
    {
        match self.expires_at {
            Some(at) => at <= now,
            None => false,
        }
    }

    /// A copy of this record.
    pub fn copy(&self) -> (r: Self)
        ensures
            r == *self,
    {
        SessionRecord { state: self.state.clone(), revision: self.revision, expires_at: self.expires_at }
    }
}

/// When a record written at `now` with time-to-live `ttl` expires.
pub open spec fn expiry_spec(now: u64, ttl: Option<u64>) -> Option<u64> {
    match ttl {
        Some(t) => Some((now + t) as u64),
        None => None,
    }
}

/// The revision a save gives: one past the stored one, or 1 for a new conversation.
pub open spec fn next_revision(m: Map<SessionKeyView, SessionRecord>, k: SessionKeyView) -> int {
    if m.contains_key(k) {
        m[k].revision + 1
    } else {
        1
    }
}

/// The table after saving `state` under `k`.
pub open spec fn after_save(
    m: Map<SessionKeyView, SessionRecord>,
    k: SessionKeyView,
    state: serde_json::Value,
    expires_at: Option<u64>,
) -> Map<SessionKeyView, SessionRecord> {
    m.insert(k, SessionRecord { state, revision: next_revision(m, k) as u64, expires_at })
}

/// What a load finds: the record when it is there and not expired.
pub open spec fn load_spec(m: Map<SessionKeyView, SessionRecord>, k: SessionKeyView, now: u64) -> Option<
    SessionRecord,
> {
    if m.contains_key(k) && !expired_at(m[k], now) {
        Some(m[k])
    } else {
        None
    }
}

/// The table after a load: an expired record is dropped.
pub open spec fn after_load(m: Map<SessionKeyView, SessionRecord>, k: SessionKeyView, now: u64) -> Map<
    SessionKeyView,
    SessionRecord,
> {
    if m.contains_key(k) && expired_at(m[k], now) {
        m.remove(k)
    } else {
        m
    }
}

/// What a revision-checked update answers.
pub open spec fn update_spec(
    m: Map<SessionKeyView, SessionRecord>,
    k: SessionKeyView,
    expected: u64,
    state: serde_json::Value,
    expires_at: Option<u64>,
    now: u64,
) -> Result<SessionRecord, SessionError> {
    if !m.contains_key(k) {
        Err(SessionError::NotFound)
    } else if expired_at(m[k], now) {
        Err(SessionError::Expired)
    } else if m[k].revision != expected {
        Err(SessionError::RevisionConflict { expected, actual: m[k].revision })
    } else {
        Ok(SessionRecord { state, revision: (expected + 1) as u64, expires_at })
    }
}

/// The table after a revision-checked update: the new record on success, an expired record
/// dropped, and otherwise unchanged.
pub open spec fn after_update(
    m: Map<SessionKeyView, SessionRecord>,
    k: SessionKeyView,
    expected: u64,
    state: serde_json::Value,
    expires_at: Option<u64>,
    now: u64,
) -> Map<SessionKeyView, SessionRecord> {
    match update_spec(m, k, expected, state, expires_at, now) {
        Ok(rec) => m.insert(k, rec),
        Err(SessionError::Expired) => m.remove(k),
        Err(_) => m,
    }
}

/// No two entries share a key.
pub open spec fn distinct_session_keys(s: Seq<(SessionKey, SessionRecord)>) -> bool {
    forall|a: int, b: int| 0 <= a < s.len() && 0 <= b < s.len() && a != b ==> #[trigger] s[a].0@ != #[trigger] s[b].0@
}

/// The map that a list of entries with distinct keys denotes.
pub open spec fn session_map(s: Seq<(SessionKey, SessionRecord)>) -> Map<SessionKeyView, SessionRecord>
    decreases s.len(),
{
    if s.len() == 0 {
        Map::empty()
    } else {
        session_map(s.drop_last()).insert(s.last().0@, s.last().1)
    }
}

proof fn lemma_session_map(s: Seq<(SessionKey, SessionRecord)>)
    requires
        distinct_session_keys(s),
    ensures
        forall|k: SessionKeyView| #[trigger]
            session_map(s).contains_key(k) <==> exists|i: int| 0 <= i < s.len() && s[i].0@ == k,
        forall|i: int| 0 <= i < s.len() ==> #[trigger] session_map(s)[s[i].0@] == s[i].1,
        session_map(s).dom().finite(),
    decreases s.len(),
{
    if s.len() > 0 {
        let u = s.drop_last();
        assert(distinct_session_keys(u)) by {
            assert forall|a: int, b: int|
                0 <= a < u.len() && 0 <= b < u.len() && a != b implies #[trigger] u[a].0@
                != #[trigger] u[b].0@ by {
                assert(s[a] == u[a]);
                assert(s[b] == u[b]);
            }
        }
        lemma_session_map(u);
        let last = s.last();
        assert forall|k: SessionKeyView| #[trigger]
            session_map(s).contains_key(k) <==> exists|i: int| 0 <= i < s.len() && s[i].0@ == k by {
            if session_map(s).contains_key(k) && k != last.0@ {
                let i = choose|i: int| 0 <= i < u.len() && u[i].0@ == k;
                assert(s[i] == u[i]);
            }
            if exists|i: int| 0 <= i < s.len() && s[i].0@ == k {
                let i = choose|i: int| 0 <= i < s.len() && s[i].0@ == k;
                if i < s.len() - 1 {
                    assert(s[i] == u[i]);
                }
            }
        }
        assert forall|i: int| 0 <= i < s.len() implies #[trigger] session_map(s)[s[i].0@] == s[i].1 by {
            if i < s.len() - 1 {
                assert(s[i] == u[i]);
                assert(s[i].0@ != s[s.len() - 1].0@);
            }
        }
    }
}

proof fn lemma_session_map_remove(s: Seq<(SessionKey, SessionRecord)>, i: int)
    requires
        distinct_session_keys(s),
        0 <= i < s.len(),
    ensures
        distinct_session_keys(s.remove(i)),
        session_map(s.remove(i)) == session_map(s).remove(s[i].0@),
{
    let t = s.remove(i);
    assert(distinct_session_keys(t)) by {
        assert forall|a: int, b: int|
            0 <= a < t.len() && 0 <= b < t.len() && a != b implies #[trigger] t[a].0@
            != #[trigger] t[b].0@ by {
            let ia = if a < i { a } else { a + 1 };
            let ib = if b < i { b } else { b + 1 };
            assert(t[a] == s[ia]);
            assert(t[b] == s[ib]);
        }
    }
    lemma_session_map(s);
    lemma_session_map(t);
    assert(session_map(t) =~= session_map(s).remove(s[i].0@)) by {
        assert forall|k: SessionKeyView| #[trigger] session_map(t).contains_key(k)
            == session_map(s).remove(s[i].0@).contains_key(k) by {
            if session_map(t).contains_key(k) {
                let j = choose|j: int| 0 <= j < t.len() && t[j].0@ == k;
                let ij = if j < i { j } else { j + 1 };
                assert(t[j] == s[ij]);
            }
            if session_map(s).remove(s[i].0@).contains_key(k) {
                let j = choose|j: int| 0 <= j < s.len() && s[j].0@ == k;
                assert(j != i);
                let jt = if j < i { j } else { j - 1 };
                assert(t[jt] == s[j]);
            }
        }
        assert forall|k: SessionKeyView| #[trigger] session_map(t).contains_key(k) implies session_map(
            t,
        )[k] == session_map(s).remove(s[i].0@)[k] by {
            let j = choose|j: int| 0 <= j < t.len() && t[j].0@ == k;
            let ij = if j < i { j } else { j + 1 };
            assert(t[j] == s[ij]);
        }
    }
}

proof fn lemma_session_map_set(s: Seq<(SessionKey, SessionRecord)>, i: int, rec: SessionRecord)
    requires
        distinct_session_keys(s),
        0 <= i < s.len(),
    ensures
        distinct_session_keys(s.update(i, (s[i].0, rec))),
        session_map(s.update(i, (s[i].0, rec))) == session_map(s).insert(s[i].0@, rec),
{
    let t = s.update(i, (s[i].0, rec));
    assert(distinct_session_keys(t)) by {
        assert forall|a: int, b: int|
            0 <= a < t.len() && 0 <= b < t.len() && a != b implies #[trigger] t[a].0@
            != #[trigger] t[b].0@ by {
            assert(t[a].0 == s[a].0);
            assert(t[b].0 == s[b].0);
        }
    }
    lemma_session_map(s);
    lemma_session_map(t);
    assert(session_map(t) =~= session_map(s).insert(s[i].0@, rec)) by {
        assert forall|k: SessionKeyView| #[trigger] session_map(t).contains_key(k)
            == session_map(s).insert(s[i].0@, rec).contains_key(k) by {
            if session_map(t).contains_key(k) {
                let j = choose|j: int| 0 <= j < t.len() && t[j].0@ == k;
                assert(t[j].0 == s[j].0);
            }
            if session_map(s).contains_key(k) {
                let j = choose|j: int| 0 <= j < s.len() && s[j].0@ == k;
                assert(t[j].0 == s[j].0);
            }
        }
        assert forall|k: SessionKeyView| #[trigger] session_map(t).contains_key(k) implies session_map(
            t,
        )[k] == session_map(s).insert(s[i].0@, rec)[k] by {
            let j = choose|j: int| 0 <= j < t.len() && t[j].0@ == k;
            assert(t[j].0 == s[j].0);
        }
    }
}

/// Saved conversations by key (the in-memory session store's table).
pub struct SessionTable {
    entries: Vec<(SessionKey, SessionRecord)>,
}

impl View for SessionTable {
    type V = Map<SessionKeyView, SessionRecord>;

    closed spec fn view(&self) -> Map<SessionKeyView, SessionRecord> {
        session_map(self.entries@)
    }
}

impl SessionTable {
    #[verifier::type_invariant]
    closed spec fn wf(&self) -> bool {
        distinct_session_keys(self.entries@)
    }

    pub fn new() -> (r: Self)
        ensures
            r@ == Map::<SessionKeyView, SessionRecord>::empty(),
    {
        SessionTable { entries: Vec::new() }
    }

    /// The number of saved conversations.
    pub fn len(&self) -> (r: usize)
        ensures
            r == self@.len(),
    {
        proof {
            use_type_invariant(self);
            lemma_session_map_len(self.entries@);
        }
        self.entries.len()
    }

    fn find(&self, key: &SessionKey) -> (r: Option<usize>)
        ensures
            r matches Some(i) ==> i < self.entries@.len() && self.entries@[i as int].0@ == key@,
            r is None ==> !self@.contains_key(key@),
    {
        proof {
            use_type_invariant(self);
            lemma_session_map(self.entries@);
        }
        let mut i: usize = 0;
        while i < self.entries.len()
            invariant
                i <= self.entries@.len(),
                forall|j: int| 0 <= j < i ==> self.entries@[j].0@ != key@,
            decreases self.entries.len() - i,
        {
            if self.entries[i].0.same(key) {
                return Some(i);
            }
            i = i + 1;
        }
        None
    }

    /// The stored record for `key`, expired or not.
    pub fn peek(&self, key: &SessionKey) -> (r: Option<SessionRecord>)
        ensures
            r == (if self@.contains_key(key@) {
                Some(self@[key@])
            } else {
                None::<SessionRecord>
            }),
    {
        proof {
            use_type_invariant(self);
            lemma_session_map(self.entries@);
        }
        match self.find(key) {
            Some(i) => Some(self.entries[i].1.copy()),
            None => None,
        }
    }

    fn remove_at(&mut self, i: usize)
        requires
            i < old(self).entries@.len(),
        ensures
            final(self)@ == old(self)@.remove(old(self).entries@[i as int].0@),
            final(self).entries@ == old(self).entries@.remove(i as int),
    {
        proof {
            use_type_invariant(&*self);
            lemma_session_map_remove(self.entries@, i as int);
        }
        let mut entries: Vec<(SessionKey, SessionRecord)> = Vec::new();
        std::mem::swap(&mut entries, &mut self.entries);
        entries.remove(i);
        self.entries = entries;
    }

    fn set_at(&mut self, i: usize, rec: SessionRecord)
        requires
            i < old(self).entries@.len(),
        ensures
            final(self)@ == old(self)@.insert(old(self).entries@[i as int].0@, rec),
    {
        proof {
            use_type_invariant(&*self);
            lemma_session_map_set(self.entries@, i as int, rec);
        }
        let mut entries: Vec<(SessionKey, SessionRecord)> = Vec::new();
        std::mem::swap(&mut entries, &mut self.entries);
        let (k, _) = entries.remove(i);
        entries.insert(i, (k, rec));
        assert(entries@ =~= old(self).entries@.update(i as int, (old(self).entries@[i as int].0, rec)));
        self.entries = entries;
    }

    fn push_new(&mut self, key: SessionKey, rec: SessionRecord)
        requires
            !old(self)@.contains_key(key@),
        ensures
            final(self)@ == old(self)@.insert(key@, rec),
    {
        proof {
            use_type_invariant(&*self);
            lemma_session_map(self.entries@);
        }
        let ghost s = self.entries@;
        let mut entries: Vec<(SessionKey, SessionRecord)> = Vec::new();
        std::mem::swap(&mut entries, &mut self.entries);
        entries.push((key, rec));
        proof {
            assert(entries@.drop_last() =~= s);
            assert forall|a: int, b: int|
                0 <= a < entries@.len() && 0 <= b < entries@.len() && a != b implies #[trigger] entries@[a].0@
                != #[trigger] entries@[b].0@ by {
                if a < s.len() && b < s.len() {
                    assert(entries@[a] == s[a] && entries@[b] == s[b]);
                } else if a < s.len() {
                    assert(entries@[a] == s[a]);
                } else {
                    assert(entries@[b] == s[b]);
                }
            }
        }
        self.entries = entries;
    }

    /// The live record for `key`; a record that has expired is dropped and not returned.
    pub fn load(&mut self, key: &SessionKey, now: u64) -> (r: Option<SessionRecord>)
        ensures
            r == load_spec(old(self)@, key@, now),
            final(self)@ == after_load(old(self)@, key@, now),
    {
        proof {
            use_type_invariant(&*self);
            lemma_session_map(self.entries@);
        }
        match self.find(key) {
            Some(i) => {
                if self.entries[i].1.is_expired(now) {
                    self.remove_at(i);
                    None
                } else {
                    Some(self.entries[i].1.copy())
                }
            },
            None => None,
        }
    }

    /// The revision of `key`'s stored record, expired or not.
    pub fn stored_revision(&self, key: &SessionKey) -> (r: Option<u64>)
        ensures
            r == (if self@.contains_key(key@) {
                Some(self@[key@].revision)
            } else {
                None::<u64>
            }),
    {
        proof {
            use_type_invariant(self);
            lemma_session_map(self.entries@);
        }
        match self.find(key) {
            Some(i) => Some(self.entries[i].1.revision),
            None => None,
        }
    }

    /// Saves `state` under `key` at the next revision (1 for a new conversation); it expires
    /// `ttl` milliseconds after `now`, or never.
    pub fn save(&mut self, key: SessionKey, state: serde_json::Value, now: u64, ttl: Option<u64>) -> (r:
        SessionRecord)
        requires
            old(self)@.contains_key(key@) ==> old(self)@[key@].revision < u64::MAX,
            ttl matches Some(t) ==> now + t <= u64::MAX,
        ensures
            r == (SessionRecord {
                state,
                revision: next_revision(old(self)@, key@) as u64,
                expires_at: expiry_spec(now, ttl),
            }),
            final(self)@ == after_save(old(self)@, key@, state, expiry_spec(now, ttl)),
    {
        proof {
            use_type_invariant(&*self);
            lemma_session_map(self.entries@);
        }
        let expires_at = match ttl {
            Some(t) => Some(now + t),
            None => None,
        };
        match self.find(&key) {
            Some(i) => {
                let rec = SessionRecord {
                    state,
                    revision: self.entries[i].1.revision + 1,
                    expires_at,
                };
                let out = rec.copy();
                self.set_at(i, rec);
                out
            },
            None => {
                let rec = SessionRecord { state, revision: 1, expires_at };
                let out = rec.copy();
                self.push_new(key, rec);
                out
            },
        }
    }

    /// Forgets `key`; whether there was a record.
    pub fn delete(&mut self, key: &SessionKey) -> (r: bool)
        ensures
            r == old(self)@.contains_key(key@),
            final(self)@ == old(self)@.remove(key@),
    {
        proof {
            use_type_invariant(&*self);
            lemma_session_map(self.entries@);
        }
        match self.find(key) {
            Some(i) => {
                self.remove_at(i);
                true
            },
            None => {
                assert(old(self)@.remove(key@) =~= old(self)@);
                false
            },
        }
    }

    /// Replaces `key`'s record only when it exists, has not expired, and is at `expected`; the
    /// new record is at the next revision. An expired record is dropped.
    pub fn update_if_revision(
        &mut self,
        key: &SessionKey,
        expected: u64,
        state: serde_json::Value,
        now: u64,
        ttl: Option<u64>,
    ) -> (r: Result<SessionRecord, SessionError>)
        requires
            expected < u64::MAX,
            ttl matches Some(t) ==> now + t <= u64::MAX,
        ensures
            r == update_spec(old(self)@, key@, expected, state, expiry_spec(now, ttl), now),
            final(self)@ == after_update(old(self)@, key@, expected, state, expiry_spec(now, ttl), now),
    {
        proof {
            use_type_invariant(&*self);
            lemma_session_map(self.entries@);
        }
        let expires_at = match ttl {
            Some(t) => Some(now + t),
            None => None,
        };
        match self.find(key) {
            None => Err(SessionError::NotFound),
            Some(i) => {
                if self.entries[i].1.is_expired(now) {
                    self.remove_at(i);
                    return Err(SessionError::Expired);
                }
                let actual = self.entries[i].1.revision;
                if actual != expected {
                    return Err(SessionError::RevisionConflict { expected, actual });
                }
                let rec = SessionRecord { state, revision: expected + 1, expires_at };
                let out = rec.copy();
                self.set_at(i, rec);
                Ok(out)
            },
        }
    }

    /// Drops every record that has expired at `now`; how many were dropped.
    pub fn cleanup_expired(&mut self, now: u64) -> (r: usize)
        ensures
            final(self)@ == after_cleanup(old(self)@, now),
            r == old(self)@.len() - final(self)@.len(),
    {
        proof {
            use_type_invariant(&*self);
            lemma_session_map(self.entries@);
            lemma_session_map_len(self.entries@);
        }
        let ghost start = self@;
        let ghost start_len = self.entries@.len();
        assert(start_len == self.entries.len());
        let mut removed: usize = 0;
        let mut i: usize = 0;
        while i < self.entries.len()
            invariant
                i <= self.entries@.len(),
                distinct_session_keys(self.entries@),
                self.entries@.len() + removed == start_len,
                start_len <= usize::MAX,
                forall|k: SessionKeyView| #[trigger]
                    self@.contains_key(k) ==> start.contains_key(k) && self@[k] == start[k],
                forall|k: SessionKeyView| #[trigger]
                    start.contains_key(k) && !expired_at(start[k], now) ==> self@.contains_key(k),
                forall|j: int| 0 <= j < i ==> !expired_at(#[trigger] self.entries@[j].1, now),
                forall|k: SessionKeyView| #[trigger]
                    start.contains_key(k) && !self@.contains_key(k) ==> expired_at(start[k], now),
            decreases self.entries.len() - i,
        {
            proof {
                use_type_invariant(&*self);
                lemma_session_map(self.entries@);
            }
            if self.entries[i].1.is_expired(now) {
                let ghost before = self.entries@;
                let ghost bm = self@;
                self.remove_at(i);
                proof {
                    use_type_invariant(&*self);
                    lemma_session_map_remove(before, i as int);
                    assert(self.entries@ == before.remove(i as int));
                    assert forall|j: int| 0 <= j < i implies !expired_at(#[trigger] self.entries@[j].1, now) by {
                        assert(self.entries@[j] == before[j]);
                    }
                    assert(bm[before[i as int].0@] == before[i as int].1);
                }
                removed = removed + 1;
            } else {
                i = i + 1;
            }
        }
        proof {
            use_type_invariant(&*self);
            lemma_session_map(self.entries@);
            lemma_session_map_len(self.entries@);
            let kept = start.dom().filter(|k: SessionKeyView| !expired_at(start[k], now));
            assert(self@ =~= after_cleanup(start, now)) by {
                assert forall|k: SessionKeyView| #[trigger] self@.contains_key(k) implies kept.contains(k) by {
                    let j = choose|j: int| 0 <= j < self.entries@.len() && self.entries@[j].0@ == k;
                    assert(!expired_at(self.entries@[j].1, now));
                    assert(self@[k] == self.entries@[j].1);
                }
            }
        }
        removed
    }
}

proof fn lemma_session_map_len(s: Seq<(SessionKey, SessionRecord)>)
    requires
        distinct_session_keys(s),
    ensures
        session_map(s).len() == s.len(),
        session_map(s).dom().finite(),
    decreases s.len(),
{
    if s.len() > 0 {
        let u = s.drop_last();
        assert(distinct_session_keys(u)) by {
            assert forall|a: int, b: int|
                0 <= a < u.len() && 0 <= b < u.len() && a != b implies #[trigger] u[a].0@
                != #[trigger] u[b].0@ by {
                assert(s[a] == u[a]);
                assert(s[b] == u[b]);
            }
        }
        lemma_session_map_len(u);
        lemma_session_map(u);
        assert(!session_map(u).contains_key(s.last().0@)) by {
            if session_map(u).contains_key(s.last().0@) {
                let i = choose|i: int| 0 <= i < u.len() && u[i].0@ == s.last().0@;
                assert(s[i] == u[i]);
            }
        }
    }
}

/// The table without the records that have expired at `now`.
pub open spec fn after_cleanup(m: Map<SessionKeyView, SessionRecord>, now: u64) -> Map<
    SessionKeyView,
    SessionRecord,
> {
    m.restrict(m.dom().filter(|k: SessionKeyView| !expired_at(m[k], now)))
}

/// A load right after a save finds what was saved, at the next revision, until it expires.
pub proof fn law_read_after_save(
    m: Map<SessionKeyView, SessionRecord>,
    k: SessionKeyView,
    state: serde_json::Value,
    expires_at: Option<u64>,
    now: u64,
)
    requires
        !expired_at(SessionRecord { state, revision: 0, expires_at }, now),
    ensures
        load_spec(after_save(m, k, state, expires_at), k, now) == Some(
            SessionRecord { state, revision: next_revision(m, k) as u64, expires_at },
        ),
{
}

/// Every save moves a conversation one revision on; a new conversation starts at 1.
pub proof fn law_save_advances_revision(
    m: Map<SessionKeyView, SessionRecord>,
    k: SessionKeyView,
    state: serde_json::Value,
    expires_at: Option<u64>,
)
    requires
        m.contains_key(k) ==> m[k].revision < u64::MAX,
    ensures
        after_save(m, k, state, expires_at)[k].revision == (if m.contains_key(k) {
            m[k].revision + 1
        } else {
            1
        }),
{
}

/// Two writers holding the same revision cannot both update: once one succeeds, the other is
/// told of the conflict, with the revision it expected and the one now stored.
pub proof fn law_no_lost_update(
    m: Map<SessionKeyView, SessionRecord>,
    k: SessionKeyView,
    expected: u64,
    first: serde_json::Value,
    second: serde_json::Value,
    e1: Option<u64>,
    e2: Option<u64>,
    now: u64,
)
    requires
        expected < u64::MAX,
        update_spec(m, k, expected, first, e1, now) is Ok,
        !expired_at(SessionRecord { state: first, revision: 0, expires_at: e1 }, now),
    ensures
        update_spec(after_update(m, k, expected, first, e1, now), k, expected, second, e2, now)
            == Err::<SessionRecord, SessionError>(
            SessionError::RevisionConflict { expected, actual: (expected + 1) as u64 },
        ),
{
}

/// A refused update (missing, or at another revision) leaves the table as it was; only an
/// expired record is dropped.
pub proof fn law_refused_update_changes_nothing(
    m: Map<SessionKeyView, SessionRecord>,
    k: SessionKeyView,
    expected: u64,
    state: serde_json::Value,
    expires_at: Option<u64>,
    now: u64,
)
    requires
        update_spec(m, k, expected, state, expires_at, now) is Err,
        update_spec(m, k, expected, state, expires_at, now) != Err::<SessionRecord, SessionError>(
            SessionError::Expired,
        ),
    ensures
        after_update(m, k, expected, state, expires_at, now) == m,
{
}

/// A deleted conversation is not found again.
pub proof fn law_delete_then_load(m: Map<SessionKeyView, SessionRecord>, k: SessionKeyView, now: u64)
    ensures
        load_spec(m.remove(k), k, now) is None,
{
}

/// Cleaning up changes no load's answer, and leaves no expired record behind.
pub proof fn law_cleanup_is_invisible(m: Map<SessionKeyView, SessionRecord>, k: SessionKeyView, now: u64)
    ensures
        load_spec(after_cleanup(m, now), k, now) == load_spec(m, k, now),
        after_cleanup(m, now).contains_key(k) ==> !expired_at(after_cleanup(m, now)[k], now),
{
}

/// A conversation of one key and the record last loaded or saved for it.
#[derive(Debug, Clone)]
pub struct Conversation {
    key: SessionKey,
    record: Option<SessionRecord>,
}

impl Conversation {
    pub closed spec fn spec_key(&self) -> SessionKeyView {
        self.key@
    }

    pub closed spec fn spec_record(&self) -> Option<SessionRecord> {
        self.record
    }

    /// A conversation resumed with what the store holds for `key`.
    pub fn from_record(key: SessionKey, record: Option<SessionRecord>) -> (r: Self)
        ensures
            r.spec_key() == key@,
            r.spec_record() == record,
    {
        Conversation { key, record }
    }

    pub fn key(&self) -> (r: &SessionKey)
        ensures
            r@ == self.spec_key(),
    {
        &self.key
    }

    /// Where the conversation stands: its key at the current revision, if it has a record.
    pub fn cursor(&self) -> (r: Option<SessionCursor>)
        ensures
            r is Some <==> self.spec_record() is Some,
            r matches Some(c) ==> c.spec_key() == self.spec_key() && c.spec_revision()
                == self.spec_record()->Some_0.revision,
    {
        match &self.record {
            Some(record) => Some(SessionCursor::new(self.key.copy(), record.revision)),
            None => None,
        }
    }

    /// The saved state, if there is a record.
    pub fn state(&self) -> (r: Option<&serde_json::Value>)
        ensures
            r is Some <==> self.spec_record() is Some,
            r matches Some(v) ==> *v == self.spec_record()->Some_0.state,
    {
        match &self.record {
            Some(record) => Some(&record.state),
            None => None,
        }
    }

    /// Takes the record that the store just saved, and answers with the new cursor.
    pub fn record_saved(&mut self, record: SessionRecord) -> (r: SessionCursor)
        ensures
            final(self).spec_key() == old(self).spec_key(),
            final(self).spec_record() == Some(record),
            r.spec_key() == old(self).spec_key(),
            r.spec_revision() == record.revision,
    {
        let cursor = SessionCursor::new(self.key.copy(), record.revision);
        self.record = Some(record);
        cursor
    }

    /// Forgets the record once the store has deleted it.
    pub fn forget(&mut self)
        ensures
            final(self).spec_key() == old(self).spec_key(),
            final(self).spec_record() is None,
    {
        self.record = None;
    }
}

} // verus!
