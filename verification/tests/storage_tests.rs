use ayiou::storage::{starts_with, MemoryStore};

#[test]
fn memory_store_keeps_bytes_by_key() {
    let mut store = MemoryStore::new();
    assert!(store.get_raw("plugin:test").is_none());
    store.set_raw("plugin:test", b"{\"n\":42}".to_vec());
    assert_eq!(store.get_raw("plugin:test"), Some(b"{\"n\":42}".to_vec()));
    store.set_raw("plugin:test", vec![1, 2]);
    assert_eq!(store.get_raw("plugin:test"), Some(vec![1, 2]));
    assert!(store.delete("plugin:test"));
    assert!(!store.delete("plugin:test"));
    assert!(store.get_raw("plugin:test").is_none());
}

#[test]
fn list_prefix_is_sorted_and_filtered() {
    let mut store = MemoryStore::default();
    store.set_raw("plugin:b", vec![]);
    store.set_raw("other", vec![]);
    store.set_raw("plugin:a", vec![]);
    store.set_raw("plugin:", vec![]);
    store.set_raw("plugin:b", vec![9]);
    assert_eq!(
        store.list_prefix("plugin:"),
        vec!["plugin:".to_string(), "plugin:a".to_string(), "plugin:b".to_string()]
    );
    assert_eq!(store.list_prefix("").len(), 4);
    assert!(store.list_prefix("zzz").is_empty());
}

#[test]
fn prefixes_compare_characters() {
    assert!(starts_with("plugin:x", "plugin:"));
    assert!(starts_with("abc", ""));
    assert!(!starts_with("ab", "abc"));
    assert!(!starts_with("Plugin", "plugin"));
}
