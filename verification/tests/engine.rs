use multipush::engine::evaluator::aggregate_outcomes;
use multipush::engine::executor::generate_pr_body;
use multipush::engine::plan::plan_apply_actions;
use multipush::formatter::{PolicyReport, RepoOutcome, RepoResult, Report, Summary};
use multipush::model::{BranchProtectionPatch, FileChange, RepoSettingsPatch, Severity};
use multipush::rule::{AttributedRemediation, Remediation, RuleResult};

#[test]
fn aggregate_all_pass() {
    let outcomes = vec![
        RuleResult::Pass { detail: "a".into() },
        RuleResult::Pass { detail: "b".into() },
    ];
    match aggregate_outcomes(&outcomes) {
        RepoOutcome::Pass { detail } => assert!(detail.contains("a") && detail.contains("b")),
        other => panic!("expected Pass, got {other:?}"),
    }
}

#[test]
fn aggregate_fail_takes_priority() {
    let outcomes = vec![
        RuleResult::Pass { detail: "ok".into() },
        RuleResult::Fail { detail: "bad".into(), remediation: None },
    ];
    match aggregate_outcomes(&outcomes) {
        RepoOutcome::Fail { .. } => {}
        other => panic!("expected Fail, got {other:?}"),
    }
}

#[test]
fn aggregate_error_takes_priority() {
    let outcomes = vec![
        RuleResult::Fail { detail: "bad".into(), remediation: None },
        RuleResult::Error { message: "boom".into() },
    ];
    match aggregate_outcomes(&outcomes) {
        RepoOutcome::Error { .. } => {}
        other => panic!("expected Error, got {other:?}"),
    }
}

#[test]
fn aggregate_joins_details_and_keeps_remediations() {
    let outcomes = vec![
        RuleResult::Pass { detail: "ok".into() },
        RuleResult::Fail {
            detail: "missing".into(),
            remediation: Some(AttributedRemediation::new(
                "file_absent",
                Remediation::FileChanges { description: "Delete x".into(), changes: vec![] },
            )),
        },
        RuleResult::Skip { reason: "n/a".into() },
    ];
    match aggregate_outcomes(&outcomes) {
        RepoOutcome::Fail { detail, remediations } => {
            assert_eq!(detail, "ok; missing; n/a");
            assert_eq!(remediations.len(), 1);
            assert_eq!(remediations[0].rule_type, "file_absent");
        }
        other => panic!("expected Fail, got {other:?}"),
    }
}

#[test]
fn aggregate_empty_is_pass() {
    match aggregate_outcomes(&[]) {
        RepoOutcome::Pass { detail } => assert_eq!(detail, ""),
        other => panic!("expected Pass, got {other:?}"),
    }
}

#[test]
fn generate_pr_body_format() {
    let remediations = vec![Remediation::FileChanges {
        description: "Create LICENSE file".to_string(),
        changes: vec![FileChange {
            path: "LICENSE".to_string(),
            content: Some("MIT".to_string()),
            message: "Add LICENSE".to_string(),
        }],
    }];

    let body = generate_pr_body(
        "require-license",
        Some("All repos need a license"),
        &Severity::Error,
        "org/alpha",
        &remediations,
    );

    assert!(body.contains("## Policy: require-license"));
    assert!(body.contains("All repos need a license"));
    assert!(body.contains("**Severity:** error"));
    assert!(body.contains("**Repository:** org/alpha"));
    assert!(body.contains("Create LICENSE file"));
    assert!(body.contains("`LICENSE` (create/update)"));
    assert!(body.contains("multipush"));
}

#[test]
fn generate_pr_body_exact_text() {
    let remediations = vec![
        Remediation::FileChanges {
            description: "Delete file .travis.yml".to_string(),
            changes: vec![FileChange {
                path: ".travis.yml".to_string(),
                content: None,
                message: "Delete file .travis.yml".to_string(),
            }],
        },
        Remediation::RepoSettings {
            description: "Update repo settings".to_string(),
            patch: RepoSettingsPatch::default(),
        },
    ];
    let body = generate_pr_body("no-travis", None, &Severity::Warning, "org/a", &remediations);
    assert_eq!(
        body,
        "## Policy: no-travis\n\n**Severity:** warning\n**Repository:** org/a\n\n### Changes\n\n\
         - Delete file .travis.yml\n  - `.travis.yml` (delete)\n- Update repo settings\n\
         \n---\n*This PR was automatically created by [multipush](https://github.com/multipush/multipush).*\n"
    );
}

fn fail_with(remediations: Vec<AttributedRemediation>) -> RepoOutcome {
    RepoOutcome::Fail { detail: "fail".to_string(), remediations }
}

#[test]
fn aggregates_settings_across_policies_for_same_repo() {
    let report = Report {
        results: vec![
            PolicyReport {
                policy_name: "p1".to_string(),
                description: None,
                severity: Severity::Warning,
                repo_results: vec![RepoResult {
                    repo_name: "org/a".to_string(),
                    default_branch: "main".to_string(),
                    outcome: fail_with(vec![AttributedRemediation::new(
                        "repo_settings",
                        Remediation::RepoSettings {
                            description: "delete branches".to_string(),
                            patch: RepoSettingsPatch {
                                delete_branch_on_merge: Some(true),
                                ..Default::default()
                            },
                        },
                    )]),
                }],
            },
            PolicyReport {
                policy_name: "p2".to_string(),
                description: None,
                severity: Severity::Warning,
                repo_results: vec![RepoResult {
                    repo_name: "org/a".to_string(),
                    default_branch: "main".to_string(),
                    outcome: fail_with(vec![AttributedRemediation::new(
                        "repo_settings",
                        Remediation::RepoSettings {
                            description: "disable wikis".to_string(),
                            patch: RepoSettingsPatch { has_wiki: Some(false), ..Default::default() },
                        },
                    )]),
                }],
            },
        ],
        summary: Summary::default(),
    };

    let (settings, protection) = plan_apply_actions(&report);
    assert_eq!(settings.len(), 1);
    let a = &settings[0];
    assert_eq!(a.repo_name, "org/a");
    assert_eq!(a.policy_names, vec!["p1", "p2"]);
    assert_eq!(a.patch.delete_branch_on_merge, Some(true));
    assert_eq!(a.patch.has_wiki, Some(false));
    assert!(protection.is_empty());
}

#[test]
fn skips_empty_patches() {
    let report = Report {
        results: vec![PolicyReport {
            policy_name: "p".to_string(),
            description: None,
            severity: Severity::Warning,
            repo_results: vec![RepoResult {
                repo_name: "org/a".to_string(),
                default_branch: "main".to_string(),
                outcome: fail_with(vec![AttributedRemediation::new(
                    "repo_settings",
                    Remediation::RepoSettings {
                        description: "noop".to_string(),
                        patch: RepoSettingsPatch::default(),
                    },
                )]),
            }],
        }],
        summary: Summary::default(),
    };

    let (settings, _) = plan_apply_actions(&report);
    assert!(settings.is_empty());
}

#[test]
fn aggregates_branch_protection_per_branch() {
    let mk = |branch: &str, enforce_admins: bool| {
        AttributedRemediation::new(
            "branch_protection",
            Remediation::BranchProtection {
                description: "protect".to_string(),
                branch: branch.to_string(),
                patch: BranchProtectionPatch {
                    enforce_admins: Some(enforce_admins),
                    ..Default::default()
                },
            },
        )
    };
    let report = Report {
        results: vec![PolicyReport {
            policy_name: "p".to_string(),
            description: None,
            severity: Severity::Warning,
            repo_results: vec![RepoResult {
                repo_name: "org/a".to_string(),
                default_branch: "main".to_string(),
                outcome: fail_with(vec![mk("main", true), mk("release", false)]),
            }],
        }],
        summary: Summary::default(),
    };

    let (_, protection) = plan_apply_actions(&report);
    assert_eq!(protection.len(), 2);
    let mut branches: Vec<&str> = protection.iter().map(|p| p.branch.as_str()).collect();
    branches.sort();
    assert_eq!(branches, vec!["main", "release"]);
}

#[test]
fn pass_outcomes_contribute_nothing() {
    let report = Report {
        results: vec![PolicyReport {
            policy_name: "p".to_string(),
            description: None,
            severity: Severity::Warning,
            repo_results: vec![RepoResult {
                repo_name: "org/a".to_string(),
                default_branch: "main".to_string(),
                outcome: RepoOutcome::Pass { detail: "ok".to_string() },
            }],
        }],
        summary: Summary::default(),
    };

    let (s, p) = plan_apply_actions(&report);
    assert!(s.is_empty());
    assert!(p.is_empty());
}

#[test]
fn later_policy_overrides_same_setting_and_names_once() {
    let rem = |wiki: bool| {
        AttributedRemediation::new(
            "repo_settings",
            Remediation::RepoSettings {
                description: "wiki".to_string(),
                patch: RepoSettingsPatch { has_wiki: Some(wiki), ..Default::default() },
            },
        )
    };
    let report = Report {
        results: vec![PolicyReport {
            policy_name: "p".to_string(),
            description: None,
            severity: Severity::Error,
            repo_results: vec![
                RepoResult {
                    repo_name: "org/a".to_string(),
                    default_branch: "main".to_string(),
                    outcome: fail_with(vec![rem(true), rem(false)]),
                },
                RepoResult {
                    repo_name: "org/b".to_string(),
                    default_branch: "main".to_string(),
                    outcome: fail_with(vec![rem(true)]),
                },
            ],
        }],
        summary: Summary::default(),
    };
    let (settings, _) = plan_apply_actions(&report);
    assert_eq!(settings.len(), 2);
    assert_eq!(settings[0].repo_name, "org/a");
    assert_eq!(settings[0].patch.has_wiki, Some(false));
    assert_eq!(settings[0].policy_names, vec!["p"]);
    assert_eq!(settings[1].repo_name, "org/b");
}
