use multipush::engine::executor::{ApplyReport, PrAction, PrActionKind};
use multipush::formatter::{Formatter, PolicyReport, RepoOutcome, RepoResult, Report, Summary};
use multipush::formatters::markdown::MarkdownFormatter;
use multipush::model::{PrState, PullRequest, Severity};


fn make_check_report() -> Report {
    Report {
        results: vec![PolicyReport {
            policy_name: "codeowners-required".to_string(),
            description: Some("All repos must have a CODEOWNERS file".to_string()),
            severity: Severity::Error,
            repo_results: vec![
                RepoResult {
                    repo_name: "acme/api-gateway".to_string(),
                    default_branch: "main".to_string(),
                    outcome: RepoOutcome::Pass {
                        detail: "File CODEOWNERS exists".to_string(),
                    },
                },
                RepoResult {
                    repo_name: "acme/web-frontend".to_string(),
                    default_branch: "main".to_string(),
                    outcome: RepoOutcome::Fail {
                        detail: "File CODEOWNERS does not exist".to_string(),
                        remediations: vec![],
                    },
                },
            ],
        }],
        summary: Summary {
            total_repos: 2,
            passing: 1,
            failing: 1,
            skipped: 0,
            errors: 0,
        },
    }
}

#[test]
fn markdown_format_by_repo() {
    let report = make_check_report();
    let formatter = MarkdownFormatter::new();
    let output = formatter.format_by_repo(&report).unwrap();

    assert!(output.starts_with("# multipush Report (by repo)"));
    assert!(output.contains("### acme/api-gateway — 1 policy (1 pass)"));
    assert!(output.contains("### acme/web-frontend — 1 policy (1 fail)"));
    assert!(output.contains("- PASS **codeowners-required** — File CODEOWNERS exists"));
    assert!(output.contains("- FAIL **codeowners-required** — File CODEOWNERS does not exist"));
    assert!(output.contains("## Overview"));
}

#[test]
fn markdown_format_check_mode() {
    let report = make_check_report();
    let formatter = MarkdownFormatter::new();
    let output = formatter.format(&report).unwrap();

    assert!(output.starts_with("# multipush Report"));
    assert!(output.contains("## Policy: codeowners-required"));
    assert!(output.contains("> All repos must have a CODEOWNERS file"));
    assert!(output.contains("| acme/api-gateway | PASS | File CODEOWNERS exists |"));
    assert!(output.contains("| acme/web-frontend | FAIL | File CODEOWNERS does not exist |"));
    assert!(
        output.contains("**Policy summary:** 1 pass, 1 fail, 0 skip, 0 errors (50.0% pass)")
    );
    assert!(output.contains("## Overview"));
    assert!(output.contains("- Policies: 1"));
    assert!(output.contains("- Repositories: 2"));
    assert!(output.contains("- **Success rate:** 50.0% (1 pass / 2 evaluated)"));
}

#[test]
fn markdown_format_apply_mode() {
    let report = make_check_report();
    let apply_report = ApplyReport {
        report,
        prs_created: vec![PrAction {
            repo_name: "acme/web-frontend".to_string(),
            policy_name: "codeowners-required".to_string(),
            branch: "multipush/codeowners-required".to_string(),
            pr: Some(PullRequest {
                number: 42,
                title: "Add CODEOWNERS".to_string(),
                head_branch: "multipush/codeowners-required".to_string(),
                url: "https://github.com/acme/web-frontend/pull/42".to_string(),
                state: PrState::Open,
            }),
            action: PrActionKind::Created,
            error: None,
        }],
        prs_updated: vec![],
        prs_skipped: vec![],
        prs_errored: vec![],
        prs_limited: 0,
        settings_applied: vec![],
        settings_errored: vec![],
        branch_protection_applied: vec![],
        branch_protection_errored: vec![],
        autolinks_applied: vec![],
        autolinks_errored: vec![],
    };

    let formatter = MarkdownFormatter::new();
    let output = formatter.format_apply(&apply_report).unwrap();

    assert!(output.starts_with("# multipush Apply Report"));
    assert!(output.contains("| Repository | Status | Action | PR |"));
    assert!(output.contains("| acme/api-gateway | PASS | - | - |"));
    assert!(output.contains("| acme/web-frontend | FAIL | PR created | https://github.com/acme/web-frontend/pull/42 |"));
    assert!(output.contains("PRs: 1 created"));
}
