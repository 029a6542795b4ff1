use liscov_core::traits::ConfigError;
use liscov_core::unified_config::{parse_config_key, validate_config_json, ConfigStore, ConfigValue};

fn text(s: &str) -> ConfigValue {
    ConfigValue::Text(s.to_string())
}

fn number(s: &str) -> ConfigValue {
    ConfigValue::Number(s.to_string())
}

fn validation(detail: &str) -> ConfigError {
    ConfigError::Validation(detail.to_string())
}

fn as_text(v: Option<&ConfigValue>) -> Option<String> {
    match v {
        Some(ConfigValue::Text(s)) => Some(s.clone()),
        _ => None,
    }
}

#[test]
fn config_keys_split_at_the_first_dot() {
    assert_eq!(parse_config_key("window.width"), ("window".to_string(), "width".to_string()));
    assert_eq!(parse_config_key("a.b.c"), ("a".to_string(), "b.c".to_string()));
    assert_eq!(parse_config_key("url"), ("app".to_string(), "url".to_string()));
    assert_eq!(parse_config_key(".x"), ("".to_string(), "x".to_string()));
    assert_eq!(parse_config_key("x."), ("x".to_string(), "".to_string()));
}

#[test]
fn config_validation_accepts_ordinary_values() {
    let value = ConfigValue::Object(vec![
        ("key".to_string(), text("value")),
        ("n".to_string(), number("1.5")),
        ("list".to_string(), ConfigValue::Array(vec![ConfigValue::Bool(true), ConfigValue::Null])),
    ]);
    assert_eq!(validate_config_json(&value), Ok(()));
    assert_eq!(validate_config_json(&text(&"x".repeat(10000))), Ok(()));
}

#[test]
fn config_validation_refuses_long_text() {
    let value = ConfigValue::Object(vec![("key".to_string(), text(&"x".repeat(20000)))]);
    assert_eq!(validate_config_json(&value), Err(validation("String too long (max 10000 chars)")));
    // Bytes count, not characters: 3334 three-byte characters exceed the limit.
    assert_eq!(
        validate_config_json(&text(&"あ".repeat(3334))),
        Err(validation("String too long (max 10000 chars)"))
    );
}

#[test]
fn config_validation_refuses_large_arrays_and_objects() {
    let items: Vec<ConfigValue> = (0..1001).map(|_| ConfigValue::Null).collect();
    assert_eq!(
        validate_config_json(&ConfigValue::Array(items)),
        Err(validation("Array too large (max 1000 elements)"))
    );
    let entries: Vec<(String, ConfigValue)> = (0..101).map(|i| (format!("k{}", i), ConfigValue::Null)).collect();
    assert_eq!(
        validate_config_json(&ConfigValue::Object(entries)),
        Err(validation("Object too large (max 100 keys)"))
    );
}

#[test]
fn config_validation_reports_the_first_fault() {
    let big: Vec<ConfigValue> = (0..1001).map(|_| ConfigValue::Null).collect();
    let value = ConfigValue::Array(vec![
        ConfigValue::Bool(false),
        text(&"y".repeat(10001)),
        ConfigValue::Array(big),
    ]);
    assert_eq!(validate_config_json(&value), Err(validation("String too long (max 10000 chars)")));
}

#[test]
fn config_store_reads_what_was_written() {
    let mut store = ConfigStore::new();
    assert!(store.get_config_json("app.url").is_none());
    store.set_config_json("app.url", text("https://example.com"));
    store.set_config_json("window.width", number("800"));
    assert_eq!(as_text(store.get_config_json("app.url")), Some("https://example.com".to_string()));
    // A key without a category names the same setting of `app`.
    assert_eq!(as_text(store.get_config_json("url")), Some("https://example.com".to_string()));
    assert!(matches!(store.get_config_json("window.width"), Some(ConfigValue::Number(n)) if n == "800"));
    store.set_config_json("url", text("https://other.example"));
    assert_eq!(as_text(store.get_config_json("app.url")), Some("https://other.example".to_string()));
}

#[test]
fn config_store_removes_settings() {
    let mut store = ConfigStore::new();
    store.set_config_json("app.name", text("liscov"));
    store.set_config_json("app.debug", ConfigValue::Bool(true));
    store.remove_config("app.name");
    assert!(store.get_config_json("app.name").is_none());
    assert!(matches!(store.get_config_json("app.debug"), Some(ConfigValue::Bool(true))));
    store.remove_config("missing.key");
    assert!(store.get_config_json("missing.key").is_none());
}

#[test]
fn config_store_lists_categories_to_save() {
    let mut store = ConfigStore::new();
    assert!(store.categories_to_save().is_empty());
    store.set_config_json("app.name", text("liscov"));
    store.set_config_json("app.version", text("1"));
    store.set_config_json("window.width", number("800"));
    let mut to_save = store.categories_to_save();
    to_save.sort();
    assert_eq!(to_save, vec!["app".to_string(), "window".to_string()]);
    store.clear_dirty();
    assert!(store.categories_to_save().is_empty());
    // Removing from a category that was never created writes nothing out.
    store.remove_config("nothing.here");
    assert!(store.categories_to_save().is_empty());
}

#[test]
fn config_store_lists_all_settings_by_full_key() {
    let mut store = ConfigStore::new();
    store.set_config_json("app.name", text("liscov"));
    store.set_config_json("window.width", number("800"));
    store.set_config_json("debug", ConfigValue::Bool(true));
    let all: Vec<String> = store.get_all_configs().into_iter().map(|(k, _)| k).collect();
    assert_eq!(all, vec!["app.name".to_string(), "window.width".to_string(), "app.debug".to_string()]);
    let app: Vec<String> = store.category_entries("app").into_iter().map(|(n, _)| n).collect();
    assert_eq!(app, vec!["name".to_string(), "debug".to_string()]);
    assert!(store.category_entries("none").is_empty());
}

#[test]
fn config_store_loading_replaces_a_category() {
    let mut store = ConfigStore::new();
    store.set_config_json("window.width", number("800"));
    store.set_config_json("window.x", number("10"));
    store.clear_dirty();
    store.load_category("window", vec![("width".to_string(), number("1200")), ("height".to_string(), number("900"))]);
    assert!(matches!(store.get_config_json("window.width"), Some(ConfigValue::Number(n)) if n == "1200"));
    assert!(matches!(store.get_config_json("window.height"), Some(ConfigValue::Number(n)) if n == "900"));
    assert!(store.get_config_json("window.x").is_none());
    assert!(store.categories_to_save().is_empty());
    store.load_category("empty", Vec::new());
    assert!(store.category_entries("empty").is_empty());
    store.remove_config("empty.anything");
    assert_eq!(store.categories_to_save(), vec!["empty".to_string()]);
}
