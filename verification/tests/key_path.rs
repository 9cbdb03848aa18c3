use multipush::config::{EnsureYamlKeyConfig, JsonKeyMode};
use multipush::json::{Json, JsonEntry};
use multipush::rule::{Remediation, RuleResult};
use multipush::rules::ensure_yaml_key::{EnsureYamlKeyRule, YamlKeyStep};
use multipush::rules::key_path::{get_by_path, json_equal, set_by_path, split_path};

fn from_serde(v: serde_json::Value) -> Json {
    match v {
        serde_json::Value::Null => Json::Null,
        serde_json::Value::Bool(b) => Json::Bool(b),
        serde_json::Value::Number(n) => Json::Number(n.to_string()),
        serde_json::Value::String(s) => Json::Str(s),
        serde_json::Value::Array(a) => Json::Array(a.into_iter().map(from_serde).collect()),
        serde_json::Value::Object(m) => {
            Json::Object(m.into_iter().map(|(key, value)| JsonEntry { key, value: from_serde(value) }).collect())
        }
    }
}

fn to_serde(j: &Json) -> serde_json::Value {
    match j {
        Json::Null => serde_json::Value::Null,
        Json::Bool(b) => serde_json::Value::Bool(*b),
        Json::Number(n) => serde_json::from_str(n).unwrap(),
        Json::Str(s) => serde_json::Value::String(s.clone()),
        Json::Array(a) => serde_json::Value::Array(a.iter().map(to_serde).collect()),
        Json::Object(es) => {
            let mut m = serde_json::Map::new();
            for e in es {
                m.insert(e.key.clone(), to_serde(&e.value));
            }
            serde_json::Value::Object(m)
        }
    }
}

fn j(text: &str) -> Json {
    from_serde(serde_json::from_str(text).unwrap())
}

fn same(a: &Json, text: &str) -> bool {
    to_serde(a) == serde_json::from_str::<serde_json::Value>(text).unwrap()
}

#[test]
fn get_shallow_key() {
    let v = j(r#"{"name": "test"}"#);
    assert!(same(get_by_path(&v, "name").unwrap(), r#""test""#));
}

#[test]
fn get_nested_key() {
    let v = j(r#"{"a": {"b": {"c": 42}}}"#);
    assert!(same(get_by_path(&v, "a.b.c").unwrap(), "42"));
}

#[test]
fn get_missing_key() {
    let v = j(r#"{"a": 1}"#);
    assert!(get_by_path(&v, "b").is_none());
}

#[test]
fn get_non_object_intermediate() {
    let v = j(r#"{"a": "string"}"#);
    assert!(get_by_path(&v, "a.b").is_none());
}

#[test]
fn set_shallow_key() {
    let mut v = j(r#"{"name": "old"}"#);
    assert!(set_by_path(&mut v, "name", j(r#""new""#)));
    assert!(same(&v, r#"{"name": "new"}"#));
}

#[test]
fn set_creates_intermediates() {
    let mut v = j("{}");
    assert!(set_by_path(&mut v, "a.b.c", j("true")));
    assert!(same(&v, r#"{"a": {"b": {"c": true}}}"#));
}

#[test]
fn set_overwrites_existing() {
    let mut v = j(r#"{"a": {"b": 1}}"#);
    assert!(set_by_path(&mut v, "a.b", j("2")));
    assert!(same(&v, r#"{"a": {"b": 2}}"#));
}

#[test]
fn set_non_object_intermediate_fails() {
    let mut v = j(r#"{"a": "string"}"#);
    assert!(!set_by_path(&mut v, "a.b", j("1")));
    assert!(same(&v, r#"{"a": "string"}"#));
}

#[test]
fn paths_split_on_every_dot() {
    assert_eq!(split_path("a.b.c"), vec!["a", "b", "c"]);
    assert_eq!(split_path(""), vec![""]);
    assert_eq!(split_path("a..b."), vec!["a", "", "b", ""]);
}

#[test]
fn json_equality_ignores_key_order_but_not_list_order() {
    assert!(json_equal(&j(r#"{"a": 1, "b": [1, 2]}"#), &j(r#"{"b": [1, 2], "a": 1}"#)));
    assert!(!json_equal(&j("[1, 2]"), &j("[2, 1]")));
    assert!(!json_equal(&j(r#"{"a": 1}"#), &j(r#"{"a": 1, "b": 2}"#)));
    assert!(!json_equal(&j("1"), &j("1.0")));
    assert!(json_equal(&j("null"), &j("null")));
}

fn rule(value: Option<&str>, mode: JsonKeyMode) -> EnsureYamlKeyRule {
    EnsureYamlKeyRule::new(EnsureYamlKeyConfig {
        path: "config.yml".to_string(),
        key: "server.port".to_string(),
        value: value.map(j),
        mode,
    })
}

fn done(s: YamlKeyStep) -> RuleResult {
    match s {
        YamlKeyStep::Done(r) => r,
        YamlKeyStep::Render { .. } => panic!("expected a result"),
    }
}

#[test]
fn yaml_key_present_with_expected_value_passes() {
    let r = rule(Some("8080"), JsonKeyMode::Enforce);
    match done(r.examine(Some(Ok(j(r#"{"server": {"port": 8080}}"#))))) {
        RuleResult::Pass { detail } => assert_eq!(detail, "Key `server.port` in config.yml has expected value"),
        other => panic!("unexpected {other:?}"),
    }
    let presence = rule(None, JsonKeyMode::CheckOnly);
    match done(presence.examine(Some(Ok(j(r#"{"server": {"port": 1}}"#))))) {
        RuleResult::Pass { detail } => assert_eq!(detail, "Key `server.port` exists in config.yml"),
        other => panic!("unexpected {other:?}"),
    }
}

#[test]
fn yaml_key_check_only_fails_without_fix() {
    let r = rule(Some("8080"), JsonKeyMode::CheckOnly);
    match done(r.examine(Some(Ok(j(r#"{"server": {"port": 80}}"#))))) {
        RuleResult::Fail { detail, remediation } => {
            assert_eq!(detail, "Key `server.port` in config.yml has unexpected value");
            assert!(remediation.is_none());
        }
        other => panic!("unexpected {other:?}"),
    }
    match done(r.examine(Some(Err("bad indentation".to_string())))) {
        RuleResult::Fail { detail, remediation } => {
            assert_eq!(detail, "File config.yml is not valid YAML: bad indentation");
            assert!(remediation.is_none());
        }
        other => panic!("unexpected {other:?}"),
    }
}

#[test]
fn yaml_key_enforce_offers_the_fixed_document() {
    let r = rule(Some("8080"), JsonKeyMode::Enforce);
    match r.examine(Some(Ok(j(r#"{"server": {"host": "x"}}"#)))) {
        YamlKeyStep::Render { detail, fixed } => {
            assert_eq!(detail, "Key `server.port` not found in config.yml");
            assert!(same(&fixed, r#"{"server": {"host": "x", "port": 8080}}"#));
            match r.conclude(detail, Some("server:\n  host: x\n  port: 8080\n".to_string())) {
                RuleResult::Fail { remediation: Some(a), .. } => {
                    assert_eq!(a.rule_type, "ensure_yaml_key");
                    match a.remediation {
                        Remediation::FileChanges { description, changes } => {
                            assert_eq!(description, "Set key `server.port` in config.yml to expected value");
                            assert_eq!(changes.len(), 1);
                            assert_eq!(changes[0].path, "config.yml");
                            assert_eq!(changes[0].content.as_deref(), Some("server:\n  host: x\n  port: 8080\n"));
                        }
                        other => panic!("unexpected {other:?}"),
                    }
                }
                other => panic!("unexpected {other:?}"),
            }
        }
        YamlKeyStep::Done(r) => panic!("unexpected {r:?}"),
    }
    match r.examine(None) {
        YamlKeyStep::Render { detail, fixed } => {
            assert_eq!(detail, "File config.yml does not exist");
            assert!(same(&fixed, r#"{"server": {"port": 8080}}"#));
            assert!(matches!(r.conclude(detail, None), RuleResult::Fail { remediation: None, .. }));
        }
        YamlKeyStep::Done(r) => panic!("unexpected {r:?}"),
    }
}

#[test]
fn yaml_key_unfixable_path_fails_without_fix() {
    let r = rule(Some("1"), JsonKeyMode::Enforce);
    match done(r.examine(Some(Ok(j(r#"{"server": "flat"}"#))))) {
        RuleResult::Fail { detail, remediation } => {
            assert_eq!(detail, "Key `server.port` not found in config.yml");
            assert!(remediation.is_none());
        }
        other => panic!("unexpected {other:?}"),
    }
}
