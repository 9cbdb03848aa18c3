use multipush::engine::executor::{ApplyReport, PrAction, PrActionKind};
use multipush::formatter::{Formatter, PolicyReport, RepoOutcome, RepoResult, Report, Summary};
use multipush::formatters::table::TableFormatter;
use multipush::model::{PrState, PullRequest, RepoSettingsPatch, Severity};
use multipush::rule::{AttributedRemediation, Remediation};


fn strip_ansi(s: &str) -> String {
    let mut out = String::with_capacity(s.len());
    let mut chars = s.chars();
    while let Some(c) = chars.next() {
        if c == '\x1b' {
            // Skip CSI sequence: `[` ... terminator in `@-~`.
            if chars.next() == Some('[') {
                for c2 in chars.by_ref() {
                    if ('@'..='~').contains(&c2) {
                        break;
                    }
                }
            }
        } else {
            out.push(c);
        }
    }
    out
}

fn make_report(policies: Vec<PolicyReport>, summary: Summary) -> Report {
    Report {
        results: policies,
        summary,
    }
}

#[test]
fn single_policy_mixed_outcomes() {
    let report = make_report(
        vec![PolicyReport {
            policy_name: "require-license".to_string(),
            description: Some("All repos must have a LICENSE".to_string()),
            severity: Severity::Error,
            repo_results: vec![
                RepoResult {
                    repo_name: "org/alpha".to_string(),
                    default_branch: "main".to_string(),
                    outcome: RepoOutcome::Pass {
                        detail: "File LICENSE exists".to_string(),
                    },
                },
                RepoResult {
                    repo_name: "org/beta".to_string(),
                    default_branch: "main".to_string(),
                    outcome: RepoOutcome::Fail {
                        detail: "File LICENSE does not exist".to_string(),
                        remediations: vec![],
                    },
                },
                RepoResult {
                    repo_name: "org/gamma".to_string(),
                    default_branch: "main".to_string(),
                    outcome: RepoOutcome::Skip {
                        reason: "Repo is archived".to_string(),
                    },
                },
                RepoResult {
                    repo_name: "org/delta".to_string(),
                    default_branch: "main".to_string(),
                    outcome: RepoOutcome::Error {
                        message: "API rate limit".to_string(),
                    },
                },
            ],
        }],
        Summary {
            total_repos: 4,
            passing: 1,
            failing: 1,
            skipped: 1,
            errors: 1,
        },
    );

    let formatter = TableFormatter::with_color(false);
    let output = formatter.format(&report).unwrap();

    assert!(output.contains("Policy: require-license"));
    assert!(output.contains("All repos must have a LICENSE"));
    assert!(output.contains("org/alpha"));
    assert!(output.contains("PASS"));
    assert!(output.contains("FAIL"));
    assert!(output.contains("SKIP"));
    assert!(output.contains("ERROR"));
    // Check now exposes an Action column derived from the outcome.
    assert!(output.contains("Action"));
    assert!(output.contains("Report only"));
    assert!(output.contains("Policy summary: 1 pass, 1 fail, 1 skip, 1 error (50.0% pass)"));
    assert!(output.contains("Overview"));
    assert!(output.contains("Pass:         1"));
    assert!(output.contains("Fail:         1"));
    assert!(output.contains("Skip:         1"));
    assert!(output.contains("Error:        1"));
    assert!(output.contains("Success rate: 50.0%  (1 pass / 2 evaluated)"));
    // Summary footer parity with apply.
    assert!(output.contains("PRs:               0 actions"));
    assert!(output.contains("Settings:          0 actions"));
    assert!(output.contains("Branch protection: 0 actions"));
}

/// Regression: with color enabled, ANSI escapes in the Status cell used to
/// inflate the column-width calculation and break alignment. Verify that
/// every `│` in a body row sits at the same *visible* column as the `┼` in
/// the divider above it.
#[test]
fn colored_status_does_not_break_alignment() {

    let report = make_report(
        vec![PolicyReport {
            policy_name: "p".to_string(),
            description: None,
            severity: Severity::Error,
            repo_results: vec![
                RepoResult {
                    repo_name: "org/a".to_string(),
                    default_branch: "main".to_string(),
                    outcome: RepoOutcome::Pass {
                        detail: "ok".to_string(),
                    },
                },
                RepoResult {
                    repo_name: "org/b".to_string(),
                    default_branch: "main".to_string(),
                    outcome: RepoOutcome::Fail {
                        detail: "nope".to_string(),
                        remediations: vec![],
                    },
                },
            ],
        }],
        Summary {
            total_repos: 2,
            passing: 1,
            failing: 1,
            skipped: 0,
            errors: 0,
        },
    );

    let formatter = TableFormatter::with_color(true);
    let output = formatter.format(&report).unwrap();

    let visible: Vec<String> = output.lines().map(strip_ansi).collect();

    let divider = visible
        .iter()
        .find(|l| l.contains('┼'))
        .expect("expected a middle divider row");
    // Visible-character positions of inner column junctions (`┼`).
    let junction_cols: Vec<usize> = divider
        .chars()
        .enumerate()
        .filter_map(|(i, c)| (c == '┼').then_some(i))
        .collect();
    assert!(!junction_cols.is_empty(), "no inner junctions on divider");

    // Each body row's *inner* `│` must sit at the same visible columns.
    for row in visible
        .iter()
        .filter(|l| l.starts_with('│') && (l.contains("org/a") || l.contains("org/b")))
    {
        let mut pipe_cols: Vec<usize> = row
            .chars()
            .enumerate()
            .filter_map(|(i, c)| (c == '│').then_some(i))
            .collect();
        // Drop the leading and trailing border `│`; keep inner separators.
        pipe_cols.pop();
        pipe_cols.remove(0);
        assert_eq!(
            pipe_cols, junction_cols,
            "row dividers misaligned with header divider\n  divider: {divider:?}\n  row    : {row:?}",
        );
    }
}

#[test]
fn multiple_policies_separated_by_blank_line() {
    let report = make_report(
        vec![
            PolicyReport {
                policy_name: "policy-a".to_string(),
                description: None,
                severity: Severity::Warning,
                repo_results: vec![RepoResult {
                    repo_name: "org/one".to_string(),
                    default_branch: "main".to_string(),
                    outcome: RepoOutcome::Pass {
                        detail: "ok".to_string(),
                    },
                }],
            },
            PolicyReport {
                policy_name: "policy-b".to_string(),
                description: None,
                severity: Severity::Error,
                repo_results: vec![RepoResult {
                    repo_name: "org/two".to_string(),
                    default_branch: "main".to_string(),
                    outcome: RepoOutcome::Fail {
                        detail: "not ok".to_string(),
                        remediations: vec![],
                    },
                }],
            },
        ],
        Summary {
            total_repos: 2,
            passing: 1,
            failing: 1,
            skipped: 0,
            errors: 0,
        },
    );

    let formatter = TableFormatter::with_color(false);
    let output = formatter.format(&report).unwrap();

    assert!(output.contains("Policy: policy-a"));
    assert!(output.contains("Policy: policy-b"));
    // Blank line separates policies
    assert!(output.contains("\n\nPolicy: policy-b"));
    assert!(output.contains("Policies:     2"));
    assert!(output.contains("Success rate: 50.0%  (1 pass / 2 evaluated)"));
}

#[test]
fn by_repo_groups_results_and_lists_each_policy() {
    let report = make_report(
        vec![
            PolicyReport {
                policy_name: "codeowners-everywhere".to_string(),
                description: None,
                severity: Severity::Error,
                repo_results: vec![
                    RepoResult {
                        repo_name: "acme/api".to_string(),
                        default_branch: "main".to_string(),
                        outcome: RepoOutcome::Pass {
                            detail: "File .github/CODEOWNERS exists".to_string(),
                        },
                    },
                    RepoResult {
                        repo_name: "acme/web".to_string(),
                        default_branch: "main".to_string(),
                        outcome: RepoOutcome::Fail {
                            detail: "missing".to_string(),
                            remediations: vec![],
                        },
                    },
                ],
            },
            PolicyReport {
                policy_name: "codeowners-portal".to_string(),
                description: None,
                severity: Severity::Warning,
                repo_results: vec![RepoResult {
                    repo_name: "acme/api".to_string(),
                    default_branch: "main".to_string(),
                    outcome: RepoOutcome::Skip {
                        reason: "not in scope".to_string(),
                    },
                }],
            },
        ],
        Summary {
            total_repos: 2,
            passing: 1,
            failing: 1,
            skipped: 1,
            errors: 0,
        },
    );

    let formatter = TableFormatter::with_color(false);
    let output = formatter.format_by_repo(&report).unwrap();

    // Repos appear sorted, each followed by a per-policy line.
    let api_header = output.find("acme/api  — 2 policies").expect("api header");
    let web_header = output.find("acme/web  — 1 policy").expect("web header");
    assert!(
        api_header < web_header,
        "acme/api should come before acme/web"
    );

    // Counts are summarised non-zero kinds only.
    assert!(output.contains("acme/api  — 2 policies (1 pass, 1 skip)"));
    assert!(output.contains("acme/web  — 1 policy (1 fail)"));

    // Per-policy lines under each repo.
    assert!(output.contains("✓ codeowners-everywhere"));
    assert!(output.contains("• codeowners-portal"));
    assert!(output.contains("✗ codeowners-everywhere"));

    // Overview block still rendered.
    assert!(output.contains("Overview"));
    assert!(output.contains("Success rate: 50.0%  (1 pass / 2 evaluated)"));
}

#[test]
fn empty_report() {
    let report = make_report(
        vec![],
        Summary {
            total_repos: 0,
            passing: 0,
            failing: 0,
            skipped: 0,
            errors: 0,
        },
    );

    let formatter = TableFormatter::with_color(false);
    let output = formatter.format(&report).unwrap();

    // No policies → just the overview block, no leading blank line.
    assert!(output.starts_with("Overview"));
    assert!(output.contains("Policies:     0"));
    assert!(output.contains("Repositories: 0"));
    assert!(output.contains("Success rate: n/a  (no repositories evaluated)"));
}

#[test]
fn format_apply_with_pr_actions() {
    let report = make_report(
        vec![PolicyReport {
            policy_name: "require-license".to_string(),
            description: Some("All repos must have a LICENSE".to_string()),
            severity: Severity::Error,
            repo_results: vec![
                RepoResult {
                    repo_name: "org/alpha".to_string(),
                    default_branch: "main".to_string(),
                    outcome: RepoOutcome::Pass {
                        detail: "File LICENSE exists".to_string(),
                    },
                },
                RepoResult {
                    repo_name: "org/beta".to_string(),
                    default_branch: "main".to_string(),
                    outcome: RepoOutcome::Fail {
                        detail: "File LICENSE does not exist".to_string(),
                        remediations: vec![],
                    },
                },
            ],
        }],
        Summary {
            total_repos: 2,
            passing: 1,
            failing: 1,
            skipped: 0,
            errors: 0,
        },
    );

    let apply_report = ApplyReport {
        report,
        prs_created: vec![PrAction {
            repo_name: "org/beta".to_string(),
            policy_name: "require-license".to_string(),
            branch: "multipush/require-license".to_string(),
            pr: Some(PullRequest {
                number: 7,
                title: "Add LICENSE".to_string(),
                head_branch: "multipush/require-license".to_string(),
                url: "https://github.com/org/beta/pull/7".to_string(),
                state: PrState::Open,
            }),
            action: PrActionKind::Created,
            error: None,
        }],
        prs_updated: vec![],
        prs_skipped: vec![],
        prs_errored: vec![],
        prs_limited: 0,
        settings_applied: vec![],
        settings_errored: vec![],
        branch_protection_applied: vec![],
        branch_protection_errored: vec![],
        autolinks_applied: vec![],
        autolinks_errored: vec![],
    };

    let formatter = TableFormatter::with_color(false);
    let output = formatter.format_apply(&apply_report).unwrap();

    assert!(output.contains("Policy: require-license"));
    assert!(output.contains("PR created"));
    assert!(output.contains("https://github.com/org/beta/pull/7"));
    assert!(output.contains("PRs:               1 created"));
    assert!(output.contains("Success rate: 50.0%  (1 pass / 2 evaluated)"));
}

#[test]
fn check_surfaces_planned_settings_and_pr_action() {
    let remediation = AttributedRemediation::new(
        "repo_settings",
        Remediation::RepoSettings {
            description: "delete branches on merge".to_string(),
            patch: RepoSettingsPatch {
                delete_branch_on_merge: Some(true),
                ..Default::default()
            },
        },
    );
    let report = make_report(
        vec![PolicyReport {
            policy_name: "delete-head-branches".to_string(),
            description: None,
            severity: Severity::Warning,
            repo_results: vec![RepoResult {
                repo_name: "org/a".to_string(),
                default_branch: "main".to_string(),
                outcome: RepoOutcome::Fail {
                    detail: "missing".to_string(),
                    remediations: vec![remediation],
                },
            }],
        }],
        Summary {
            total_repos: 1,
            passing: 0,
            failing: 1,
            skipped: 0,
            errors: 0,
        },
    );

    let formatter = TableFormatter::with_color(false);
    let output = formatter.format(&report).unwrap();

    // Per-policy table shows the planned action.
    assert!(output.contains("Would update settings"));
    // Dedicated sub-table for settings updates.
    assert!(output.contains("Repo settings updates:"));
    assert!(output.contains("would update settings"));
    assert!(output.contains("\"delete_branch_on_merge\":true"));
    // Footer summary mirrors apply.
    assert!(output.contains("Settings:          1 would apply"));
}
