use multipush::cli::{
    create_formatter, exit_status, filter_policies, has_failure, list_rules_text, paths_to_sources, provider_supported,
    validation_summary, AnyFormatter,
};
use multipush::config::{
    ConfigSource, FileAbsentConfig, PolicyConfig, ProviderConfig, ProviderType, RootConfig, RuleDefinition, TargetConfig,
};
use multipush::formatter::{check_report_fits, Formatter, PolicyReport, Report, RepoOutcome, RepoResult, Summary};
use multipush::model::{parse_severity, Severity};
use multipush::recipe::Recipe;
use multipush::json::{Json, JsonEntry};

fn result(name: &str, outcome: RepoOutcome) -> RepoResult {
    RepoResult { repo_name: name.to_string(), default_branch: "main".to_string(), outcome }
}

fn policy_report(name: &str, severity: Severity, results: Vec<RepoResult>) -> PolicyReport {
    PolicyReport { policy_name: name.to_string(), description: None, severity, repo_results: results }
}

fn report(results: Vec<PolicyReport>) -> Report {
    Report { results, summary: Summary { total_repos: 0, passing: 0, failing: 0, skipped: 0, errors: 0 } }
}

fn fail() -> RepoOutcome {
    RepoOutcome::Fail { detail: "bad".to_string(), remediations: vec![] }
}

fn pass() -> RepoOutcome {
    RepoOutcome::Pass { detail: "ok".to_string() }
}

#[test]
fn failure_counts_only_at_or_above_the_threshold() {
    let r = report(vec![policy_report("w", Severity::Warning, vec![result("o/a", fail())])]);
    assert!(has_failure(&r, Severity::Warning));
    assert!(!has_failure(&r, Severity::Error));
    assert_eq!(exit_status(&r, Severity::Info), 1);
    assert_eq!(exit_status(&r, Severity::Error), 0);

    let errored = report(vec![policy_report(
        "e",
        Severity::Error,
        vec![result("o/a", pass()), result("o/b", RepoOutcome::Error { message: "x".to_string() })],
    )]);
    assert!(has_failure(&errored, Severity::Error));

    let skipped = report(vec![policy_report("s", Severity::Error, vec![result("o/a", RepoOutcome::Skip { reason: "n/a".to_string() })])]);
    assert!(!has_failure(&skipped, Severity::Info));
}

fn targets() -> TargetConfig {
    TargetConfig { repos: vec!["*".to_string()], exclude: vec![], exclude_archived: true, filters: vec![] }
}

fn policy(name: &str, rules: usize) -> PolicyConfig {
    PolicyConfig {
        name: name.to_string(),
        description: None,
        severity: Severity::Error,
        targets: targets(),
        rules: (0..rules).map(|_| RuleDefinition::FileAbsent(FileAbsentConfig { path: ".env".to_string() })).collect(),
    }
}

#[test]
fn policy_filter_keeps_named_policies_in_config_order() {
    let ps = vec![policy("a", 1), policy("b", 1), policy("c", 1)];
    let kept = filter_policies(ps, &vec!["c".to_string(), "a".to_string()]).unwrap();
    let names: Vec<&str> = kept.iter().map(|p| p.name.as_str()).collect();
    assert_eq!(names, vec!["a", "c"]);

    let all = filter_policies(vec![policy("a", 1)], &vec![]).unwrap();
    assert_eq!(all.len(), 1);

    let err = filter_policies(vec![policy("a", 1)], &vec!["x".to_string(), "y".to_string()]).unwrap_err();
    assert_eq!(err, "no policies matched filter: x, y");
}

#[test]
fn formatters_are_chosen_by_name() {
    assert!(matches!(create_formatter("table", true), Ok(AnyFormatter::Table(_))));
    assert!(matches!(create_formatter("markdown", false), Ok(AnyFormatter::Markdown(_))));
    match create_formatter("xml", false) {
        Err(m) => assert_eq!(m, "unknown format: xml"),
        Ok(_) => panic!("xml accepted"),
    }
    let md = create_formatter("markdown", false).ok().unwrap();
    assert_eq!(md.name(), "markdown");
}

#[test]
fn validation_summary_counts_policies_and_rules() {
    let cfg = RootConfig {
        provider: ProviderConfig {
            provider_type: ProviderType::Github,
            org: "acme".to_string(),
            token: "t".to_string(),
            base_url: None,
        },
        defaults: None,
        policies: vec![policy("a", 2), policy("b", 1)],
    };
    assert_eq!(validation_summary(&cfg), "Config is valid: 2 policies, 3 rules, provider: github, org: acme");
    let one = RootConfig { policies: vec![policy("a", 1)], ..cfg };
    assert_eq!(validation_summary(&one), "Config is valid: 1 policy, 1 rule, provider: github, org: acme");
}

#[test]
fn provider_support_and_sources() {
    let mut p = ProviderConfig { provider_type: ProviderType::Github, org: "o".to_string(), token: "t".to_string(), base_url: None };
    assert!(provider_supported(&p).is_ok());
    p.provider_type = ProviderType::Gitea;
    assert_eq!(provider_supported(&p).unwrap_err(), "gitea provider is not yet implemented");

    let sources = paths_to_sources(&vec![("conf".to_string(), true), ("a.yml".to_string(), false)]);
    assert_eq!(sources, vec![ConfigSource::Directory("conf".to_string()), ConfigSource::FilePath("a.yml".to_string())]);
}

#[test]
fn list_rules_quiet_names_only() {
    let text = list_rules_text(false, true, &vec![]);
    assert_eq!(text, "ensure_file\nensure_json_key\nensure_yaml_key\nfile_matches\n");
}

fn recipe_yaml() -> Recipe {
    let text = "name: demo\ndescription: A demo\nparams:\n  owner:\n    required: true\n    description: Who owns it\n  mode:\n    default: fast\n    enum: [fast, slow]\n";
    let doc = Json::Object(vec![
        JsonEntry { key: "name".to_string(), value: Json::Str("demo".to_string()) },
        JsonEntry { key: "description".to_string(), value: Json::Str("A demo".to_string()) },
        JsonEntry {
            key: "params".to_string(),
            value: Json::Object(vec![
                JsonEntry {
                    key: "owner".to_string(),
                    value: Json::Object(vec![
                        JsonEntry { key: "required".to_string(), value: Json::Bool(true) },
                        JsonEntry { key: "description".to_string(), value: Json::Str("Who owns it".to_string()) },
                    ]),
                },
                JsonEntry {
                    key: "mode".to_string(),
                    value: Json::Object(vec![
                        JsonEntry { key: "default".to_string(), value: Json::Str("fast".to_string()) },
                        JsonEntry {
                            key: "enum".to_string(),
                            value: Json::Array(vec![Json::Str("fast".to_string()), Json::Str("slow".to_string())]),
                        },
                    ]),
                },
            ]),
        },
    ]);
    Recipe::from_yaml(text, &doc).unwrap()
}

#[test]
fn list_rules_full_with_parameters() {
    let recipes = vec![recipe_yaml()];
    let text = list_rules_text(true, false, &recipes);
    let expected = format!(
        "Rules:\n  {:<20}{}\n  {:<20}{}\n  {:<20}{}\n  {:<20}{}\n\nRecipes:\n  {:<20}{}\n    Parameters:\n      {:<16} {:<8} {:<28} {}{}\n      {:<16} {:<8} {:<28} {}{}\n",
        "ensure_file",
        "Ensure a file exists with optional content matching",
        "ensure_json_key",
        "Ensure a key exists in a JSON file",
        "ensure_yaml_key",
        "Ensure a key exists in a YAML file",
        "file_matches",
        "Check file content against a regex pattern",
        "demo",
        "A demo",
        "owner",
        "string",
        "required",
        "Who owns it",
        "",
        "mode",
        "string",
        "default: fast",
        "",
        " [fast, slow]",
    );
    assert_eq!(text, expected);
    let brief = list_rules_text(false, false, &recipes);
    assert!(brief.ends_with("\nRecipes:\n  demo                A demo\n"));
    let quiet = list_rules_text(false, true, &recipes);
    assert!(quiet.ends_with("file_matches\ndemo\n"));
}

#[test]
fn report_fits_small_reports() {
    let r = report(vec![policy_report("w", Severity::Warning, vec![result("o/a", fail())])]);
    assert!(check_report_fits(&r));
    let mut big = report(vec![]);
    big.summary.passing = usize::MAX;
    big.summary.failing = 1;
    assert!(!check_report_fits(&big));
}

#[test]
fn severity_names_parse_in_any_case() {
    assert_eq!(parse_severity("info"), Ok(Severity::Info));
    assert_eq!(parse_severity("WARNING"), Ok(Severity::Warning));
    assert_eq!(parse_severity("Error"), Ok(Severity::Error));
    assert_eq!(parse_severity("Fatal"), Err("unknown severity: fatal".to_string()));
    assert_eq!("warning".parse::<Severity>(), Ok(Severity::Warning));
}
