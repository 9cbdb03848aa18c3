use multipush::engine::executor::{
    autolink_fix, default_branch_of, ApplyLedger, ApplyReport, AutolinkAction, AutolinkFix, SettingsActionKind,
};
use multipush::engine::plan::plan_autolinks;
use multipush::config::ExistingPrStrategy;
use multipush::formatter::{Formatter, PolicyReport, RepoOutcome, RepoResult, Report, Summary};
use multipush::formatters::markdown::MarkdownFormatter;
use multipush::formatters::table::TableFormatter;
use multipush::model::{Autolink, AutolinkSpec, Severity};
use multipush::rule::{AttributedRemediation, Remediation};

fn spec(prefix: &str, url: &str) -> AutolinkSpec {
    AutolinkSpec { key_prefix: prefix.to_string(), url_template: url.to_string(), is_alphanumeric: true }
}

fn link(id: u64, prefix: &str, url: &str) -> Autolink {
    Autolink { id, key_prefix: prefix.to_string(), url_template: url.to_string(), is_alphanumeric: true }
}

fn autolink_report() -> Report {
    Report {
        results: vec![PolicyReport {
            policy_name: "jira".to_string(),
            description: None,
            severity: Severity::Warning,
            repo_results: vec![
                RepoResult {
                    repo_name: "org/a".to_string(),
                    default_branch: "trunk".to_string(),
                    outcome: RepoOutcome::Fail {
                        detail: "Autolink 'JIRA-' is not configured".to_string(),
                        remediations: vec![AttributedRemediation::new(
                            "ensure_autolink",
                            Remediation::Autolink {
                                description: "Create autolink 'JIRA-'".to_string(),
                                spec: spec("JIRA-", "https://jira/browse/JIRA-<num>"),
                            },
                        )],
                    },
                },
                RepoResult {
                    repo_name: "org/b".to_string(),
                    default_branch: "main".to_string(),
                    outcome: RepoOutcome::Pass { detail: "ok".to_string() },
                },
            ],
        }],
        summary: Summary::default(),
    }
}

#[test]
fn autolink_fix_nothing_when_matching() {
    let links = vec![link(7, "JIRA-", "https://jira/browse/JIRA-<num>")];
    assert_eq!(autolink_fix(&links, &spec("JIRA-", "https://jira/browse/JIRA-<num>")), AutolinkFix { delete: None, create: false });
}

#[test]
fn autolink_fix_replaces_drifted_link() {
    let links = vec![link(3, "OTHER-", "x"), link(7, "JIRA-", "https://old/<num>")];
    assert_eq!(autolink_fix(&links, &spec("JIRA-", "https://jira/browse/JIRA-<num>")), AutolinkFix { delete: Some(7), create: true });
}

#[test]
fn autolink_fix_creates_missing_link() {
    let links = vec![link(3, "OTHER-", "x")];
    assert_eq!(autolink_fix(&links, &spec("JIRA-", "https://jira/<num>")), AutolinkFix { delete: None, create: true });
}

#[test]
fn plan_autolinks_lists_each_autolink_remediation() {
    let planned = plan_autolinks(&autolink_report());
    assert_eq!(planned.len(), 1);
    assert_eq!(planned[0].repo_name, "org/a");
    assert_eq!(planned[0].policy_name, "jira");
    assert_eq!(planned[0].spec.key_prefix, "JIRA-");
    assert_eq!(planned[0].action, SettingsActionKind::DryRun);
}

#[test]
fn default_branch_of_first_result() {
    let report = autolink_report();
    assert_eq!(default_branch_of(&report, "org/a").as_deref(), Some("trunk"));
    assert_eq!(default_branch_of(&report, "org/b").as_deref(), Some("main"));
    assert_eq!(default_branch_of(&report, "org/z"), None);
}

#[test]
fn dry_run_ledger_sends_no_updates_and_records_previews() {
    let mut ledger = ApplyLedger::new(true, 10, ExistingPrStrategy::Update);
    assert!(!ledger.sends_updates());
    for planned in plan_autolinks(&autolink_report()) {
        ledger.record_autolink(planned, Err("not sent".to_string()));
    }
    let ar = ledger.finish(autolink_report());
    assert_eq!(ar.autolinks_applied.len(), 1);
    assert_eq!(ar.autolinks_applied[0].action, SettingsActionKind::DryRun);
    assert!(ar.autolinks_errored.is_empty());
    assert!(ApplyLedger::new(false, 10, ExistingPrStrategy::Update).sends_updates());
}

fn applied_report() -> ApplyReport {
    let mut ledger = ApplyLedger::new(false, 10, ExistingPrStrategy::Update);
    ledger.record_autolink(
        AutolinkAction {
            repo_name: "org/a".to_string(),
            policy_name: "jira".to_string(),
            spec: spec("JIRA-", "https://jira/<num>"),
            action: SettingsActionKind::DryRun,
            error: None,
        },
        Ok(()),
    );
    ledger.record_autolink(
        AutolinkAction {
            repo_name: "org/c".to_string(),
            policy_name: "jira".to_string(),
            spec: spec("JIRA-", "https://jira/<num>"),
            action: SettingsActionKind::DryRun,
            error: None,
        },
        Err("boom".to_string()),
    );
    ledger.finish(autolink_report())
}

#[test]
fn markdown_apply_reports_autolink_updates() {
    let out = MarkdownFormatter::new().format_apply(&applied_report()).unwrap();
    assert!(out.contains("## Autolink updates\n\n| Repository | Policy | Action | Autolink |\n|---|---|---|---|\n"));
    assert!(out.contains("| org/a | jira | autolink updated | `JIRA- -> https://jira/<num>` |\n"));
    assert!(out.contains("| org/c | jira | error: boom | `JIRA- -> https://jira/<num>` |\n"));
}

#[test]
fn table_apply_reports_autolink_updates() {
    let out = TableFormatter::with_color(false).format_apply(&applied_report()).unwrap();
    assert!(out.contains("Autolink updates:\n"));
    assert!(out.contains("autolink updated"));
    assert!(out.contains("error: boom"));
}

#[test]
fn table_check_lists_planned_autolink_updates() {
    let out = TableFormatter::with_color(false).format(&autolink_report()).unwrap();
    assert!(out.contains("Autolink updates:\n"));
    assert!(out.contains("would update autolink"));
    assert!(out.contains("JIRA- -> https://jira/browse/JIRA-<num>"));
}
