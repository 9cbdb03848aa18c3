use multipush::formatter::{PolicyReport, Report, RepoOutcome, RepoResult, Summary};
use multipush::formatters::sarif::SarifFormatter;
use multipush::json::Json;
use multipush::model::Severity;

fn make_report(policies: Vec<PolicyReport>, summary: Summary) -> Report {
    Report { results: policies, summary }
}

fn to_serde(j: Json) -> serde_json::Value {
    match j {
        Json::Null => serde_json::Value::Null,
        Json::Bool(b) => serde_json::Value::Bool(b),
        Json::Number(n) => serde_json::from_str(&n).unwrap(),
        Json::Str(s) => serde_json::Value::String(s),
        Json::Array(a) => serde_json::Value::Array(a.into_iter().map(to_serde).collect()),
        Json::Object(es) => {
            let mut m = serde_json::Map::new();
            for e in es {
                m.insert(e.key, to_serde(e.value));
            }
            serde_json::Value::Object(m)
        }
    }
}

/// The SARIF log written out as pretty JSON text.
fn format(f: &SarifFormatter, report: &Report) -> String {
    serde_json::to_string_pretty(&to_serde(f.log(report))).unwrap()
}

#[test]
fn sarif_check_mode_produces_valid_json() {
    let report = make_report(
        vec![PolicyReport {
            policy_name: "require-license".to_string(),
            description: Some("All repos must have a LICENSE".to_string()),
            severity: Severity::Error,
            repo_results: vec![
                RepoResult {
                    repo_name: "org/alpha".to_string(),
                    default_branch: "main".to_string(),
                    outcome: RepoOutcome::Pass {
                        detail: "File LICENSE exists".to_string(),
                    },
                },
                RepoResult {
                    repo_name: "org/beta".to_string(),
                    default_branch: "main".to_string(),
                    outcome: RepoOutcome::Fail {
                        detail: "File LICENSE does not exist".to_string(),
                        remediations: vec![],
                    },
                },
            ],
        }],
        Summary {
            total_repos: 2,
            passing: 1,
            failing: 1,
            skipped: 0,
            errors: 0,
        },
    );

    let formatter = SarifFormatter::new();
    let output = format(&formatter, &report);
    let parsed: serde_json::Value = serde_json::from_str(&output).unwrap();

    assert_eq!(parsed["version"], "2.1.0");
    assert!(parsed["$schema"].as_str().unwrap().contains("sarif"));
    assert_eq!(parsed["runs"][0]["tool"]["driver"]["name"], "multipush");

    let rules = parsed["runs"][0]["tool"]["driver"]["rules"]
        .as_array()
        .unwrap();
    assert_eq!(rules.len(), 1);
    assert_eq!(rules[0]["id"], "require-license");

    let results = parsed["runs"][0]["results"].as_array().unwrap();
    assert_eq!(results.len(), 1);
    assert_eq!(results[0]["ruleId"], "require-license");
    assert_eq!(results[0]["level"], "error");
    assert!(results[0]["message"]["text"]
        .as_str()
        .unwrap()
        .contains("does not exist"));
    assert_eq!(
        results[0]["locations"][0]["physicalLocation"]["artifactLocation"]["uri"],
        "org/beta"
    );
}

#[test]
fn sarif_empty_report() {
    let report = make_report(
        vec![],
        Summary {
            total_repos: 0,
            passing: 0,
            failing: 0,
            skipped: 0,
            errors: 0,
        },
    );

    let formatter = SarifFormatter::new();
    let output = format(&formatter, &report);
    let parsed: serde_json::Value = serde_json::from_str(&output).unwrap();

    assert_eq!(parsed["version"], "2.1.0");
    assert!(parsed["runs"][0]["results"].as_array().unwrap().is_empty());
    assert!(parsed["runs"][0]["tool"]["driver"]["rules"]
        .as_array()
        .unwrap()
        .is_empty());
}

#[test]
fn sarif_severity_mapping() {
    let report = make_report(
        vec![
            PolicyReport {
                policy_name: "info-policy".to_string(),
                description: None,
                severity: Severity::Info,
                repo_results: vec![RepoResult {
                    repo_name: "org/a".to_string(),
                    default_branch: "main".to_string(),
                    outcome: RepoOutcome::Fail {
                        detail: "info fail".to_string(),
                        remediations: vec![],
                    },
                }],
            },
            PolicyReport {
                policy_name: "warn-policy".to_string(),
                description: None,
                severity: Severity::Warning,
                repo_results: vec![RepoResult {
                    repo_name: "org/b".to_string(),
                    default_branch: "main".to_string(),
                    outcome: RepoOutcome::Fail {
                        detail: "warn fail".to_string(),
                        remediations: vec![],
                    },
                }],
            },
            PolicyReport {
                policy_name: "error-policy".to_string(),
                description: None,
                severity: Severity::Error,
                repo_results: vec![RepoResult {
                    repo_name: "org/c".to_string(),
                    default_branch: "main".to_string(),
                    outcome: RepoOutcome::Error {
                        message: "API error".to_string(),
                    },
                }],
            },
        ],
        Summary {
            total_repos: 3,
            passing: 0,
            failing: 2,
            skipped: 0,
            errors: 1,
        },
    );

    let formatter = SarifFormatter::new();
    let output = format(&formatter, &report);
    let parsed: serde_json::Value = serde_json::from_str(&output).unwrap();

    let results = parsed["runs"][0]["results"].as_array().unwrap();
    assert_eq!(results.len(), 3);
    assert_eq!(results[0]["level"], "note");
    assert_eq!(results[1]["level"], "warning");
    assert_eq!(results[2]["level"], "error");
}

#[test]
fn sarif_only_includes_failures() {
    let report = make_report(
        vec![PolicyReport {
            policy_name: "test".to_string(),
            description: None,
            severity: Severity::Error,
            repo_results: vec![
                RepoResult {
                    repo_name: "org/pass".to_string(),
                    default_branch: "main".to_string(),
                    outcome: RepoOutcome::Pass {
                        detail: "ok".to_string(),
                    },
                },
                RepoResult {
                    repo_name: "org/skip".to_string(),
                    default_branch: "main".to_string(),
                    outcome: RepoOutcome::Skip {
                        reason: "archived".to_string(),
                    },
                },
                RepoResult {
                    repo_name: "org/fail".to_string(),
                    default_branch: "main".to_string(),
                    outcome: RepoOutcome::Fail {
                        detail: "missing".to_string(),
                        remediations: vec![],
                    },
                },
            ],
        }],
        Summary {
            total_repos: 3,
            passing: 1,
            failing: 1,
            skipped: 1,
            errors: 0,
        },
    );

    let formatter = SarifFormatter::new();
    let output = format(&formatter, &report);
    let parsed: serde_json::Value = serde_json::from_str(&output).unwrap();

    let results = parsed["runs"][0]["results"].as_array().unwrap();
    assert_eq!(results.len(), 1);
    assert_eq!(results[0]["locations"][0]["physicalLocation"]["artifactLocation"]["uri"], "org/fail");
}

#[test]
fn sarif_rule_descriptions_fall_back_to_names() {
    let report = make_report(
        vec![
            PolicyReport { policy_name: "a".to_string(), description: Some("Has A".to_string()), severity: Severity::Error, repo_results: vec![] },
            PolicyReport { policy_name: "b".to_string(), description: None, severity: Severity::Error, repo_results: vec![] },
        ],
        Summary { total_repos: 0, passing: 0, failing: 0, skipped: 0, errors: 0 },
    );
    let f = SarifFormatter::new();
    assert_eq!(f.name(), "sarif");
    let parsed: serde_json::Value = serde_json::from_str(&format(&f, &report)).unwrap();
    let rules = &parsed["runs"][0]["tool"]["driver"]["rules"];
    assert_eq!(rules[0]["shortDescription"]["text"], "Has A");
    assert_eq!(rules[1]["shortDescription"]["text"], "b");
    assert_eq!(parsed["runs"][0]["tool"]["driver"]["version"], "0.4.0");
}
