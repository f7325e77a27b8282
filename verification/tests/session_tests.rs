use ayiou::session::{
    status_fields, Conversation, ConversationScope, ConversationStatus, SessionError, SessionKey,
    SessionTable,
};
use serde_json::Value;

fn key() -> SessionKey {
    SessionKey::new("bot-a", "onebot", "wizard", "u1", Some("g1"))
}

/// The saved state of a conversation: its status fields and the caller's state.
fn status_state(status: &ConversationStatus, state: Value) -> Value {
    let mut fields = serde_json::Map::new();
    for (name, value) in status_fields(status) {
        fields.insert(name, Value::String(value));
    }
    let mut outer = serde_json::Map::new();
    outer.insert("status".to_string(), Value::Object(fields));
    outer.insert("state".to_string(), state);
    Value::Object(outer)
}

/// An object with one field `step`.
fn step(n: i64) -> Value {
    let mut fields = serde_json::Map::new();
    fields.insert("step".to_string(), Value::from(n));
    Value::Object(fields)
}

#[test]
fn session_store_basic_flow() {
    let mut store = SessionTable::new();
    let key = key();

    let saved = store.save(key.clone(), step(1), 0, None);
    assert_eq!(saved.revision, 1);

    let loaded = store.load(&key, 0).unwrap();
    assert_eq!(loaded.revision, 1);

    let updated = store.update_if_revision(&key, 1, step(2), 0, None).unwrap();
    assert_eq!(updated.revision, 2);
}

#[test]
fn session_store_revision_conflict() {
    let mut store = SessionTable::new();
    let key = key();

    store.save(key.clone(), step(1), 0, None);

    let err = store.update_if_revision(&key, 99, step(2), 0, None).unwrap_err();

    assert!(matches!(
        err,
        SessionError::RevisionConflict {
            expected: 99,
            actual: 1
        }
    ));
    assert_eq!(err.to_display_string(), "session revision conflict: expected=99, actual=1");
}

#[test]
fn conversation_cursor_can_pause_resume_and_finish() {
    let mut store = SessionTable::new();
    let key = key();

    let mut conversation = Conversation::from_record(key.clone(), store.load(&key, 0));
    assert!(conversation.cursor().is_none());

    let record = store.save(key.clone(), status_state(&ConversationStatus::Waiting, step(1)), 0, None);
    let first = conversation.record_saved(record);
    assert_eq!(first.key(), &key);
    assert_eq!(first.revision(), 1);

    let resumed = Conversation::from_record(key.clone(), store.load(&key, 0));
    assert_eq!(resumed.cursor().unwrap().revision(), 1);
    assert_eq!(resumed.state().unwrap()["status"]["kind"], "waiting");

    let mut resumed = resumed;
    let paused_status = ConversationStatus::Paused { reason: "external review".to_string() };
    let record = store.save(key.clone(), status_state(&paused_status, Value::Object(serde_json::Map::new())), 0, None);
    let paused = resumed.record_saved(record);
    assert_eq!(paused.revision(), 2);

    assert!(store.delete(&key));
    resumed.forget();
    assert!(resumed.cursor().is_none());
    assert!(store.load(&key, 0).is_none());
}

#[test]
fn expired_sessions_are_dropped_on_load_and_refused_on_update() {
    let mut store = SessionTable::new();
    let key = key();
    store.save(key.clone(), Value::from(1), 100, Some(50));
    assert!(store.load(&key, 149).is_some());
    assert!(store.load(&key, 150).is_none());
    assert_eq!(store.len(), 0);

    store.save(key.clone(), Value::from(1), 100, Some(50));
    assert_eq!(store.update_if_revision(&key, 1, Value::from(2), 200, None).unwrap_err(), SessionError::Expired);
    assert_eq!(store.update_if_revision(&key, 1, Value::from(2), 200, None).unwrap_err(), SessionError::NotFound);
}

#[test]
fn cleanup_removes_exactly_the_expired_sessions() {
    let mut store = SessionTable::new();
    let a = SessionKey::new("b", "p", "x", "a", None);
    let b = SessionKey::new("b", "p", "x", "b", None);
    let c = SessionKey::new("b", "p", "x", "c", None);
    store.save(a.clone(), Value::from(1), 0, Some(10));
    store.save(b.clone(), Value::from(1), 0, None);
    store.save(c.clone(), Value::from(1), 0, Some(5));
    assert_eq!(store.cleanup_expired(7), 1);
    assert!(store.peek(&c).is_none());
    assert!(store.peek(&a).is_some());
    assert_eq!(store.cleanup_expired(20), 1);
    assert_eq!(store.len(), 1);
}

#[test]
fn saves_count_revisions_per_key() {
    let mut store = SessionTable::new();
    let key = key();
    assert_eq!(store.save(key.clone(), Value::from(1), 0, None).revision, 1);
    assert_eq!(store.save(key.clone(), Value::from(2), 0, None).revision, 2);
    assert_eq!(store.stored_revision(&key), Some(2));
    let other = SessionKey::new("bot-a", "onebot", "wizard", "u1", None);
    assert_eq!(store.save(other, Value::from(3), 0, None).revision, 1);
}

#[test]
fn status_fields_name_the_kind_and_reason() {
    assert_eq!(
        status_fields(&ConversationStatus::Rejected { prompt: "again".to_string() }),
        vec![("kind".to_string(), "rejected".to_string()), ("prompt".to_string(), "again".to_string())]
    );
    assert_eq!(status_fields(&ConversationStatus::Finished), vec![("kind".to_string(), "finished".to_string())]);
    assert_eq!(ConversationScope::custom("k"), ConversationScope::Custom("k".to_string()));
}
