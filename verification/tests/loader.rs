use multipush::config::{
    ApplyConfig, EnsureFileConfig, FileAbsentConfig, FileMatchesConfig, PolicyConfig, ProviderConfig, ProviderType,
    RootConfig, RuleDefinition, TargetConfig,
};
use multipush::error::CoreError;
use multipush::json::{deep_merge, merge_layers, Json, JsonEntry};
use multipush::loader::{enhance_deser_error, levenshtein, referenced_env_vars, resolve_env_vars, suggest_rule_type, validate};
use multipush::recipe::recipe_expansion;
use multipush::model::Severity;
use multipush::text::blank_as_unset;

#[test]
fn levenshtein_basic() {
    assert_eq!(levenshtein("kitten", "sitting"), 3);
    assert_eq!(levenshtein("", "abc"), 3);
    assert_eq!(levenshtein("abc", "abc"), 0);
}

#[test]
fn suggest_rule_type_typo() {
    let suggestion = suggest_rule_type("ensure_flie");
    assert!(suggestion.is_some());
    assert!(suggestion.unwrap().contains("ensure_file"));
}

#[test]
fn suggest_rule_type_no_match() {
    let suggestion = suggest_rule_type("completely_wrong_name");
    assert!(suggestion.is_none());
}

#[test]
fn levenshtein_counts_characters_and_is_symmetric_here() {
    assert_eq!(levenshtein("abc", ""), 3);
    assert_eq!(levenshtein("flaw", "lawn"), 2);
    assert_eq!(levenshtein("lawn", "flaw"), 2);
    assert_eq!(levenshtein("héllo", "hello"), 1);
}

#[test]
fn suggestion_names_the_closest_type_exactly() {
    assert_eq!(suggest_rule_type("ensure_flie").unwrap(), "Did you mean '!ensure_file'?");
    assert_eq!(suggest_rule_type("file_match").unwrap(), "Did you mean '!file_matches'?");
    assert_eq!(suggest_rule_type("ensure_jsn_key").unwrap(), "Did you mean '!ensure_json_key'?");
}

#[test]
fn deser_error_gets_a_hint_only_for_close_unknown_variants() {
    let msg = "unknown variant `ensure_flie`, expected one of `ensure_file`";
    assert_eq!(enhance_deser_error(msg), format!("{msg}. Did you mean '!ensure_file'?"));
    let far = "unknown variant `zzzzzzzzzzzzz`, expected one of `ensure_file`";
    assert_eq!(enhance_deser_error(far), far);
    assert_eq!(enhance_deser_error("missing field `path`"), "missing field `path`");
}

fn targets() -> TargetConfig {
    TargetConfig { repos: vec!["org/*".to_string()], exclude: vec![], exclude_archived: true, filters: vec![] }
}

fn policy(name: &str, rules: Vec<RuleDefinition>) -> PolicyConfig {
    PolicyConfig { name: name.to_string(), description: None, severity: Severity::Error, targets: targets(), rules }
}

fn config(org: &str, token: &str, policies: Vec<PolicyConfig>) -> RootConfig {
    RootConfig {
        provider: ProviderConfig {
            provider_type: ProviderType::Github,
            org: org.to_string(),
            token: token.to_string(),
            base_url: None,
        },
        defaults: None,
        policies,
    }
}

fn absent(path: &str) -> RuleDefinition {
    RuleDefinition::FileAbsent(FileAbsentConfig { path: path.to_string() })
}

#[test]
fn valid_config_passes_validation() {
    let cfg = config("org", "tok", vec![policy("p", vec![absent(".env")])]);
    assert!(validate(&cfg).is_ok());
}

#[test]
fn validation_collects_every_problem_in_order() {
    let ensure = RuleDefinition::EnsureFile(EnsureFileConfig {
        path: None,
        paths: vec![],
        default_content: None,
        must_contain: None,
        must_match: None,
        must_equal: None,
    });
    let matches = RuleDefinition::FileMatches(FileMatchesConfig { path: "README.md".to_string(), pattern: "(".to_string() });
    let cfg = config(
        "",
        "",
        vec![policy("dup", vec![ensure]), policy("dup", vec![]), policy("m", vec![matches])],
    );
    match validate(&cfg) {
        Err(CoreError::ConfigValidation(errs)) => {
            assert_eq!(errs[0], "provider.org must not be empty");
            assert_eq!(errs[1], "provider.token must not be empty");
            assert_eq!(errs[2], "policy 'dup', rule 1: ensure_file.path must not be empty");
            assert_eq!(errs[3], "duplicate policy name: 'dup'");
            assert_eq!(errs[4], "policy 'dup' must have at least one rule");
            assert!(errs[5].starts_with("policy 'm', rule 1: file_matches.pattern is invalid regex: "));
            assert_eq!(errs.len(), 6);
        }
        other => panic!("expected validation errors, got {other:?}"),
    }
}

#[test]
fn empty_policies_are_reported() {
    let cfg = config("org", "tok", vec![]);
    match validate(&cfg) {
        Err(CoreError::ConfigValidation(errs)) => assert_eq!(errs, vec!["at least one policy is required".to_string()]),
        other => panic!("expected validation errors, got {other:?}"),
    }
}

#[test]
fn apply_config_defaults_are_plain() {
    let a = ApplyConfig {
        pr_prefix: multipush::config::default_pr_prefix(),
        commit_author: None,
        pr_labels: vec![],
        pr_draft: false,
        existing_pr: Default::default(),
    };
    assert_eq!(a.pr_prefix, "multipush");
    assert_eq!(a.existing_pr, multipush::config::ExistingPrStrategy::Update);
}

fn messages(cfg: &RootConfig) -> String {
    match validate(cfg) {
        Err(CoreError::ConfigValidation(errs)) => errs.join("\n"),
        other => panic!("expected validation errors, got {other:?}"),
    }
}

fn ensure(path: Option<&str>) -> RuleDefinition {
    RuleDefinition::EnsureFile(EnsureFileConfig {
        path: path.map(|p| p.to_string()),
        paths: vec![],
        default_content: None,
        must_contain: None,
        must_match: None,
        must_equal: None,
    })
}

#[test]
fn empty_org_validation() {
    let cfg = config("", "ghp_test", vec![policy("p1", vec![ensure(Some("README.md"))])]);
    assert!(messages(&cfg).contains("org must not be empty"));
}

#[test]
fn empty_policies_validation() {
    let cfg = config("test-org", "ghp_test", vec![]);
    assert!(messages(&cfg).contains("at least one policy"));
}

#[test]
fn policy_with_no_rules_validation() {
    let cfg = config("test-org", "ghp_test", vec![policy("empty-policy", vec![])]);
    let msg = messages(&cfg);
    assert!(msg.contains("empty-policy"));
    assert!(msg.contains("at least one rule"));
}

#[test]
fn collects_all_validation_errors() {
    let cfg = config("", "", vec![policy("bad-policy", vec![])]);
    let msg = messages(&cfg);
    assert!(msg.contains("org must not be empty"), "got: {msg}");
    assert!(msg.contains("token must not be empty"), "got: {msg}");
    assert!(msg.contains("at least one rule"), "got: {msg}");
}

#[test]
fn validates_rule_fields() {
    let matches = RuleDefinition::FileMatches(FileMatchesConfig { path: "test.txt".to_string(), pattern: "[invalid".to_string() });
    let cfg = config("test-org", "ghp_test", vec![policy("bad-rules", vec![ensure(None), matches])]);
    let msg = messages(&cfg);
    assert!(msg.contains("ensure_file.path must not be empty"), "got: {msg}");
    assert!(msg.contains("file_matches.pattern is invalid regex"), "got: {msg}");
}

fn num(n: &str) -> Json {
    Json::Number(n.to_string())
}

fn obj(entries: Vec<(&str, Json)>) -> Json {
    Json::Object(entries.into_iter().map(|(k, v)| JsonEntry { key: k.to_string(), value: v }).collect())
}

fn get<'a>(j: &'a Json, k: &str) -> Option<&'a Json> {
    match j {
        Json::Object(es) => es.iter().find(|e| e.key == k).map(|e| &e.value),
        _ => None,
    }
}

fn number_at(j: &Json, k: &str) -> Option<String> {
    match get(j, k) {
        Some(Json::Number(n)) => Some(n.clone()),
        _ => None,
    }
}

#[test]
fn deep_merge_scalar_override() {
    let base = obj(vec![("a", num("1")), ("b", num("2"))]);
    let overlay = obj(vec![("b", num("3")), ("c", num("4"))]);
    let merged = deep_merge(base, overlay);
    assert_eq!(number_at(&merged, "a").as_deref(), Some("1"));
    assert_eq!(number_at(&merged, "b").as_deref(), Some("3"));
    assert_eq!(number_at(&merged, "c").as_deref(), Some("4"));
}

#[test]
fn deep_merge_nests_and_appends_policies() {
    let base = obj(vec![
        ("provider", obj(vec![("org", Json::Str("a".to_string())), ("token", Json::Str("t".to_string()))])),
        ("policies", Json::Array(vec![obj(vec![("name", Json::Str("one".to_string()))])])),
    ]);
    let overlay = obj(vec![
        ("provider", obj(vec![("token", Json::Str("override".to_string()))])),
        ("policies", Json::Array(vec![obj(vec![("name", Json::Str("two".to_string()))])])),
    ]);
    let merged = deep_merge(base, overlay);
    let provider = get(&merged, "provider").unwrap();
    assert!(matches!(get(provider, "org"), Some(Json::Str(s)) if s == "a"));
    assert!(matches!(get(provider, "token"), Some(Json::Str(s)) if s == "override"));
    match get(&merged, "policies") {
        Some(Json::Array(ps)) => assert_eq!(ps.len(), 2),
        _ => panic!("policies missing"),
    }
}

#[test]
fn merge_layers_keeps_last_policy_of_a_name() {
    let p = |name: &str, sev: &str| obj(vec![("name", Json::Str(name.to_string())), ("severity", Json::Str(sev.to_string()))]);
    let l1 = obj(vec![("policies", Json::Array(vec![p("x", "error"), p("y", "error")]))]);
    let l2 = obj(vec![("policies", Json::Array(vec![p("x", "warning")]))]);
    let merged = merge_layers(vec![l1, l2]);
    match get(&merged, "policies") {
        Some(Json::Array(ps)) => {
            assert_eq!(ps.len(), 2);
            assert!(matches!(get(&ps[0], "name"), Some(Json::Str(s)) if s == "y"));
            assert!(matches!(get(&ps[1], "severity"), Some(Json::Str(s)) if s == "warning"));
        }
        _ => panic!("policies missing"),
    }
}

#[test]
fn recipe_unknown_name_error() {
    let policy = obj(vec![
        ("recipe", Json::Str("nonexistent".to_string())),
        ("targets", obj(vec![("repos", Json::Str("test-org/*".to_string()))])),
    ]);
    match recipe_expansion(&policy, &vec![]).unwrap_err() {
        CoreError::Recipe(m) => assert!(m.contains("unknown recipe 'nonexistent'")),
        other => panic!("unexpected error {other:?}"),
    }
}

fn env(pairs: &[(&str, &str)]) -> Vec<(String, String)> {
    pairs.iter().map(|(k, v)| (k.to_string(), v.to_string())).collect()
}

#[test]
fn env_var_resolution_with_values() {
    let input = "org: ${TEST_MP_ORG}\ntoken: ${TEST_MP_TOKEN}\nrepos: \"${TEST_MP_ORG}/*\"";
    assert_eq!(referenced_env_vars(input), vec!["TEST_MP_ORG", "TEST_MP_TOKEN", "TEST_MP_ORG"]);
    let resolved = resolve_env_vars(input, &env(&[("TEST_MP_ORG", "my-org"), ("TEST_MP_TOKEN", "ghp_abc")])).unwrap();
    assert_eq!(resolved, "org: my-org\ntoken: ghp_abc\nrepos: \"my-org/*\"");
}

#[test]
fn env_var_defaults() {
    assert_eq!(resolve_env_vars("value: ${UNSET_X:-fallback_value}", &env(&[])).unwrap(), "value: fallback_value");
    assert_eq!(resolve_env_vars("value: ${SET_X:-fallback}", &env(&[("SET_X", "real_value")])).unwrap(), "value: real_value");
    assert_eq!(resolve_env_vars("value: ${UNSET_Y:-}", &env(&[])).unwrap(), "value: ");
    assert_eq!(resolve_env_vars("no references here", &env(&[])).unwrap(), "no references here");
}

#[test]
fn missing_env_vars_are_listed_once_in_order() {
    let input = "a: ${MISSING_VAR_B}\nb: ${MISSING_VAR_A}\nc: ${MISSING_VAR_B}";
    match resolve_env_vars(input, &env(&[])).unwrap_err() {
        CoreError::Config(m) => assert_eq!(m, "missing environment variables: MISSING_VAR_A, MISSING_VAR_B"),
        other => panic!("unexpected error {other:?}"),
    }
}

#[test]
fn deep_merge_moves_overridden_key_last() {
    let base = obj(vec![("a", num("1")), ("b", num("2")), ("c", num("3"))]);
    let overlay = obj(vec![("a", num("9")), ("d", num("4"))]);
    match deep_merge(base, overlay) {
        Json::Object(es) => {
            let keys: Vec<&str> = es.iter().map(|e| e.key.as_str()).collect();
            assert_eq!(keys, vec!["c", "b", "a", "d"]);
            assert!(matches!(&es[2].value, Json::Number(n) if n == "9"));
        }
        _ => panic!("not a mapping"),
    }
}

#[test]
fn levenshtein_rows_follow_the_byte_length_of_the_second_text() {
    assert_eq!(levenshtein("", "é"), 2);
    assert_eq!(levenshtein("a", "é"), 0);
    assert_eq!(levenshtein("ab", "é"), 2);
}

#[test]
fn ensure_file_predicates_are_exclusive() {
    let both = RuleDefinition::EnsureFile(EnsureFileConfig {
        path: Some("CODEOWNERS".to_string()),
        paths: vec![],
        default_content: Some("* @a\n".to_string()),
        must_contain: Some("@a".to_string()),
        must_match: None,
        must_equal: Some("* @a\n".to_string()),
    });
    let cfg = config("org", "tok", vec![policy("p", vec![both])]);
    match validate(&cfg) {
        Err(CoreError::ConfigValidation(errs)) => assert_eq!(
            errs,
            vec![
                "policy 'p', rule 1: ensure_file allows at most one of must_contain, must_match, must_equal".to_string(),
                "policy 'p', rule 1: ensure_file.default_content and ensure_file.must_equal cannot both be set".to_string(),
            ]
        ),
        other => panic!("expected validation errors, got {other:?}"),
    }
}

#[test]
fn blank_text_reads_as_unset() {
    assert_eq!(blank_as_unset(Some("  \t\n".to_string())), None);
    assert_eq!(blank_as_unset(Some(String::new())), None);
    assert_eq!(blank_as_unset(Some(" x ".to_string())), Some(" x ".to_string()));
    assert_eq!(blank_as_unset(None), None);
}
