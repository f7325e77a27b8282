use ayiou::config_tree::{split_at_char, ConfigStore, ConfigValue};

/// The library's form of a parsed TOML document.
fn to_config(value: toml::Value) -> ConfigValue {
    match value {
        toml::Value::Table(table) => {
            ConfigValue::Table(table.into_iter().map(|(k, v)| (k, to_config(v))).collect())
        }
        other => ConfigValue::Leaf(other),
    }
}

/// Parses TOML text into a store, as the application does.
fn parse(text: &str) -> ConfigStore {
    let value: toml::Value = toml::from_str(text).unwrap();
    ConfigStore::from_document(to_config(value), None)
}

fn leaf(store: &ConfigStore, key: &str) -> Option<toml::Value> {
    match store.get_raw(key) {
        Some(ConfigValue::Leaf(v)) => Some(v.clone()),
        _ => None,
    }
}

fn is_empty_table(v: &ConfigValue) -> bool {
    matches!(v, ConfigValue::Table(es) if es.is_empty())
}

#[test]
fn test_empty_config() {
    let store = ConfigStore::empty();
    let section = store.section("test");
    assert!(is_empty_table(&section));
    assert!(leaf(&store, "test.value").is_none());
    assert!(leaf(&store, "test.number").is_none());
}

#[test]
fn test_parse() {
    let toml = r#"
            [test]
            value = "hello"
            number = 42
        "#;

    let store = parse(toml);
    assert_eq!(leaf(&store, "test.value"), Some(toml::Value::String("hello".to_string())));
    assert_eq!(leaf(&store, "test.number"), Some(toml::Value::Integer(42)));
}

#[test]
fn test_missing_section() {
    let toml = r#"
            [other]
            value = "world"
        "#;

    let store = parse(toml);
    assert!(is_empty_table(&store.section("test")));
    assert!(leaf(&store, "test.value").is_none());
}

#[test]
fn test_has_section() {
    let toml = r#"
            [test]
            value = "hello"
        "#;

    let store = parse(toml);
    assert!(store.has_section("test"));
    assert!(!store.has_section("other"));
}

#[test]
fn test_merge() {
    let toml1 = r#"
            [test]
            value = "original"
            number = 1
        "#;

    let toml2 = r#"
            [test]
            value = "overridden"
        "#;

    let mut store1 = parse(toml1);
    let store2 = parse(toml2);

    store1.merge(&store2);

    assert_eq!(leaf(&store1, "test.value"), Some(toml::Value::String("overridden".to_string())));
    assert_eq!(leaf(&store1, "test.number"), Some(toml::Value::Integer(1)));
}

#[test]
fn merge_replaces_a_table_by_a_setting_and_adds_new_sections() {
    let mut base = parse("[a]\nx = 1\n[b]\ny = 2\n");
    let other = parse("a = 5\n[c]\nz = 3\n");
    base.merge(&other);
    assert_eq!(leaf(&base, "a"), Some(toml::Value::Integer(5)));
    assert_eq!(leaf(&base, "b.y"), Some(toml::Value::Integer(2)));
    assert_eq!(leaf(&base, "c.z"), Some(toml::Value::Integer(3)));
    assert!(base.get_raw("a.x").is_none());
}

#[test]
fn merge_goes_down_nested_tables() {
    let mut base = parse("[db.pool]\nsize = 4\ntimeout = 30\n");
    let other = parse("[db.pool]\nsize = 8\n");
    base.merge(&other);
    assert_eq!(leaf(&base, "db.pool.size"), Some(toml::Value::Integer(8)));
    assert_eq!(leaf(&base, "db.pool.timeout"), Some(toml::Value::Integer(30)));
}

#[test]
fn get_raw_follows_dotted_paths() {
    let store = parse("[database]\nurl = \"sqlite://x\"\n");
    assert_eq!(leaf(&store, "database.url"), Some(toml::Value::String("sqlite://x".to_string())));
    assert!(store.get_raw("database").is_some());
    assert!(store.get_raw("database.").is_none());
    assert!(store.get_raw("missing.url").is_none());
    assert!(store.get_raw("database.url.more").is_none());
}

#[test]
fn split_keeps_empty_pieces() {
    assert_eq!(split_at_char("a.b", '.'), vec!["a".to_string(), "b".to_string()]);
    assert_eq!(split_at_char("", '.'), vec!["".to_string()]);
    assert_eq!(split_at_char(".x.", '.'), vec!["".to_string(), "x".to_string(), "".to_string()]);
}

#[test]
fn default_store_is_empty_and_has_no_file() {
    let store = ConfigStore::default();
    assert!(is_empty_table(store.data()));
    assert!(store.path().is_none());
    assert!(!store.has_section("anything"));
}
