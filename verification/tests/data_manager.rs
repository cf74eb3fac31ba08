use semantic_rs::config::{Config, FullPluginDefinition, PluginDefinition};
use semantic_rs::data_mgr::{merge, DataManager};
use semantic_rs::error::Error;
use semantic_rs::value::KeyValue;

fn text(s: &str) -> serde_json::Value {
    serde_json::Value::String(s.to_string())
}

fn value(key: &str, payload: serde_json::Value) -> KeyValue<serde_json::Value> {
    KeyValue { source_key: key.to_string(), value: Some(payload) }
}

fn config() -> Config {
    let mut config = Config::new();
    config.cfg.push(("project".to_string(), value("project", text("kernel"))));
    config.plugins.push((
        "git".to_string(),
        PluginDefinition::Full(FullPluginDefinition {
            kind: "git".to_string(),
            version: None,
            options: vec![("branch".to_string(), text("main"))],
        }),
    ));
    config.plugins.push(("docker".to_string(), PluginDefinition::Short("docker".to_string())));
    config
}

fn manager() -> DataManager {
    DataManager::new(&config(), vec!["git".to_string(), "docker".to_string()])
}

#[test]
fn nothing_is_published_at_first() {
    let data = manager();
    assert!(data.global.is_empty());
    assert_eq!(
        data.prepare_value(0, &"tag".to_string(), &"tag".to_string()),
        Err(Error::ValueNotAvailable("tag".to_string()))
    );
}

#[test]
fn published_value_is_prepared_under_its_source_key() {
    let mut data = manager();
    data.insert_global("next_version".to_string(), value("next_version", text("1.0.0")));
    assert_eq!(
        data.prepare_value(1, &"version".to_string(), &"next_version".to_string()),
        Ok(value("next_version", text("1.0.0")))
    );
}

#[test]
fn last_published_value_counts() {
    let mut data = manager();
    data.insert_global("tag".to_string(), value("tag", text("v1")));
    data.insert_global("other".to_string(), value("other", text("x")));
    data.insert_global("tag".to_string(), value("tag", text("v2")));
    assert_eq!(
        data.prepare_value(1, &"tag".to_string(), &"tag".to_string()),
        Ok(value("tag", text("v2")))
    );
    assert_eq!(
        data.prepare_value(1, &"other".to_string(), &"other".to_string()),
        Ok(value("other", text("x")))
    );
    assert_eq!(data.global.len(), 2);
}

#[test]
fn plugin_override_replaces_the_published_payload() {
    let mut data = manager();
    data.insert_global("current".to_string(), value("current", text("develop")));
    assert_eq!(
        data.prepare_value(0, &"branch".to_string(), &"current".to_string()),
        Ok(value("current", text("main")))
    );
    assert_eq!(
        data.prepare_value(1, &"branch".to_string(), &"current".to_string()),
        Ok(value("current", text("develop")))
    );
}

#[test]
fn same_key_falls_back_to_the_configuration_entry() {
    let mut data = manager();
    assert_eq!(
        data.prepare_value_same_key(1, &"project".to_string()),
        Ok(value("project", text("kernel")))
    );
    data.insert_global("project".to_string(), value("project", text("published")));
    assert_eq!(
        data.prepare_value_same_key(1, &"project".to_string()),
        Ok(value("project", text("published")))
    );
}

#[test]
fn same_key_without_any_value_is_not_available() {
    let data = manager();
    assert_eq!(
        data.prepare_value_same_key(0, &"branch".to_string()),
        Err(Error::ValueNotAvailable("branch".to_string()))
    );
    assert_eq!(
        data.prepare_value_same_key(1, &"nothing".to_string()),
        Err(Error::ValueNotAvailable("nothing".to_string()))
    );
}

#[test]
fn unknown_plugin_is_an_invariant_violation() {
    let mut data = manager();
    data.insert_global("tag".to_string(), value("tag", text("v1")));
    assert_eq!(
        data.prepare_value(2, &"tag".to_string(), &"tag".to_string()),
        Err(Error::InvariantViolation)
    );
    assert_eq!(
        data.prepare_value_same_key(2, &"project".to_string()),
        Err(Error::InvariantViolation)
    );
}

#[test]
fn merge_prefers_the_override() {
    assert_eq!(merge(Some(text("a")), Some(text("b"))), Some(text("a")));
    assert_eq!(merge(None, Some(text("b"))), Some(text("b")));
    assert_eq!(merge(Some(text("a")), None), Some(text("a")));
    assert_eq!(merge(None, None), None);
}
