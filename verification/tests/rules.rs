use multipush::config::{
    BranchProtectionConfig, EnsureAutolinkConfig, EnsureFileConfig, FileAbsentConfig, FileMatchesConfig,
    RepoSettingsConfig, RequiredPullRequestReviewsConfig, RequiredStatusChecksConfig,
};
use multipush::error::CoreError;
use multipush::model::{Autolink, BranchProtection, RepoSettings, RequiredPullRequestReviews};
use multipush::rule::{Remediation, Rule, RuleResult};
use multipush::rules::branch_protection::BranchProtectionRule;
use multipush::rules::ensure_autolink::EnsureAutolinkRule;
use multipush::rules::ensure_file::EnsureFileRule;
use multipush::rules::file_absent::FileAbsentRule;
use multipush::rules::file_matches::FileMatchesRule;
use multipush::rules::repo_settings::RepoSettingsRule;

fn ensure_cfg(paths: &[&str]) -> EnsureFileConfig {
    EnsureFileConfig {
        path: None,
        paths: paths.iter().map(|p| p.to_string()).collect(),
        default_content: None,
        must_contain: None,
        must_match: None,
        must_equal: None,
    }
}

fn fetched(items: &[(&str, Option<&str>)]) -> Vec<(String, Option<String>)> {
    items.iter().map(|(p, c)| (p.to_string(), c.map(|c| c.to_string()))).collect()
}

#[test]
fn ensure_file_missing_without_body_reports_only() {
    let rule = EnsureFileRule::new(ensure_cfg(&["LICENSE"]));
    match rule.judge(&fetched(&[("LICENSE", None)])).unwrap() {
        RuleResult::Fail { detail, remediation } => {
            assert_eq!(detail, "File LICENSE does not exist");
            assert!(remediation.is_none());
        }
        other => panic!("expected Fail, got {other:?}"),
    }
}

#[test]
fn ensure_file_missing_with_default_content_creates_canonical() {
    let mut cfg = ensure_cfg(&["CODEOWNERS", ".github/CODEOWNERS"]);
    cfg.default_content = Some("* @org/team\n".to_string());
    let rule = EnsureFileRule::new(cfg);
    assert_eq!(rule.description(), "Ensure a file exists at one of: CODEOWNERS, .github/CODEOWNERS");
    match rule.judge(&fetched(&[("CODEOWNERS", None), (".github/CODEOWNERS", None)])).unwrap() {
        RuleResult::Fail { detail, remediation } => {
            assert_eq!(detail, "No file found at any of: CODEOWNERS, .github/CODEOWNERS");
            let r = remediation.unwrap();
            assert_eq!(r.rule_type, "ensure_file");
            match r.remediation {
                Remediation::FileChanges { description, changes } => {
                    assert_eq!(description, "Create file CODEOWNERS");
                    assert_eq!(changes.len(), 1);
                    assert_eq!(changes[0].path, "CODEOWNERS");
                    assert_eq!(changes[0].content.as_deref(), Some("* @org/team\n"));
                }
                other => panic!("unexpected remediation {other:?}"),
            }
        }
        other => panic!("expected Fail, got {other:?}"),
    }
}

#[test]
fn ensure_file_any_candidate_passes() {
    let rule = EnsureFileRule::new(ensure_cfg(&["CODEOWNERS", ".github/CODEOWNERS"]));
    match rule.judge(&fetched(&[("CODEOWNERS", None), (".github/CODEOWNERS", Some("x"))])).unwrap() {
        RuleResult::Pass { detail } => assert_eq!(detail, "File .github/CODEOWNERS exists"),
        other => panic!("expected Pass, got {other:?}"),
    }
}

#[test]
fn ensure_file_must_equal_drift_overwrites_top_file() {
    let mut cfg = ensure_cfg(&["a", "b"]);
    cfg.must_equal = Some("want".to_string());
    let rule = EnsureFileRule::new(cfg);
    match rule.judge(&fetched(&[("a", Some("old")), ("b", Some("also old"))])).unwrap() {
        RuleResult::Fail { detail, remediation } => {
            assert_eq!(detail, "File a content does not match required content");
            match remediation.unwrap().remediation {
                Remediation::FileChanges { changes, .. } => {
                    assert_eq!(changes[0].path, "a");
                    assert_eq!(changes[0].content.as_deref(), Some("want"));
                    assert_eq!(changes[0].message, "Update file a to match policy");
                }
                other => panic!("unexpected remediation {other:?}"),
            }
        }
        other => panic!("expected Fail, got {other:?}"),
    }
    let mut cfg = ensure_cfg(&["a", "b"]);
    cfg.must_equal = Some("want".to_string());
    let rule = EnsureFileRule::new(cfg);
    match rule.judge(&fetched(&[("a", Some("old")), ("b", Some("want"))])).unwrap() {
        RuleResult::Pass { detail } => assert_eq!(detail, "File b matches required content"),
        other => panic!("expected Pass, got {other:?}"),
    }
}

#[test]
fn ensure_file_must_contain_quotes_the_needle() {
    let mut cfg = ensure_cfg(&["README.md"]);
    cfg.must_contain = Some("License".to_string());
    let rule = EnsureFileRule::new(cfg);
    match rule.judge(&fetched(&[("README.md", Some("hello"))])).unwrap() {
        RuleResult::Fail { detail, remediation } => {
            assert_eq!(detail, "File README.md does not contain required content: \"License\"");
            assert!(remediation.is_none());
        }
        other => panic!("expected Fail, got {other:?}"),
    }
}

#[test]
fn ensure_file_must_match_uses_the_regex_and_reports_bad_patterns() {
    let mut cfg = ensure_cfg(&["go.mod"]);
    cfg.must_match = Some(r"^go 1\.2\d".to_string());
    let rule = EnsureFileRule::new(cfg);
    match rule.judge(&fetched(&[("go.mod", Some("module x\n"))])).unwrap() {
        RuleResult::Fail { detail, .. } => assert_eq!(detail, r"File go.mod does not match required pattern: /^go 1\.2\d/"),
        other => panic!("expected Fail, got {other:?}"),
    }
    let mut cfg = ensure_cfg(&["go.mod"]);
    cfg.must_match = Some("(".to_string());
    let rule = EnsureFileRule::new(cfg);
    match rule.judge(&fetched(&[("go.mod", Some("go 1.22"))])) {
        Err(CoreError::RuleEvaluation(msg)) => assert!(msg.starts_with("invalid must_match regex: ")),
        other => panic!("expected an evaluation error, got {other:?}"),
    }
}

#[test]
fn file_absent_deletes_present_file() {
    let rule = FileAbsentRule::new(FileAbsentConfig { path: ".env".to_string() });
    match rule.judge(true) {
        RuleResult::Fail { detail, remediation } => {
            assert_eq!(detail, "File .env exists but should be absent");
            match remediation.unwrap().remediation {
                Remediation::FileChanges { description, changes } => {
                    assert_eq!(description, "Delete file .env");
                    assert!(changes[0].content.is_none());
                }
                other => panic!("unexpected remediation {other:?}"),
            }
        }
        other => panic!("expected Fail, got {other:?}"),
    }
    assert!(matches!(rule.judge(false), RuleResult::Pass { .. }));
}

#[test]
fn file_matches_rejects_bad_pattern_and_judges_content() {
    let bad = FileMatchesRule::new(FileMatchesConfig { path: "x".to_string(), pattern: "[".to_string() });
    assert!(matches!(bad, Err(CoreError::Config(m)) if m.starts_with("Invalid regex pattern `[`: ")));
    let rule = FileMatchesRule::new(FileMatchesConfig { path: "Cargo.toml".to_string(), pattern: "edition = \"2021\"".to_string() }).unwrap();
    match rule.judge(Some("[package]\nedition = \"2021\"\n")) {
        RuleResult::Pass { detail } => assert_eq!(detail, "File Cargo.toml matches pattern `edition = \"2021\"`"),
        other => panic!("expected Pass, got {other:?}"),
    }
    assert!(matches!(rule.judge(None), RuleResult::Fail { .. }));
}

fn settings() -> RepoSettings {
    RepoSettings {
        has_issues: true,
        has_wiki: true,
        has_projects: false,
        allow_merge_commit: true,
        allow_squash_merge: true,
        allow_rebase_merge: false,
        delete_branch_on_merge: false,
        default_branch: "main".to_string(),
        allow_auto_merge: false,
    }
}

fn settings_cfg() -> RepoSettingsConfig {
    RepoSettingsConfig {
        has_issues: None,
        has_wiki: None,
        has_projects: None,
        allow_merge_commit: None,
        allow_squash_merge: None,
        allow_rebase_merge: None,
        delete_branch_on_merge: None,
        allow_auto_merge: None,
        default_branch: None,
    }
}

#[test]
fn repo_settings_diff_lists_mismatches_and_patch() {
    let mut cfg = settings_cfg();
    cfg.has_wiki = Some(false);
    cfg.delete_branch_on_merge = Some(true);
    cfg.default_branch = Some("trunk".to_string());
    cfg.has_issues = Some(true);
    let rule = RepoSettingsRule::new(cfg);
    match rule.judge(&settings()) {
        RuleResult::Fail { detail, remediation } => {
            assert_eq!(
                detail,
                "Settings differ: has_wiki: actual=true expected=false, delete_branch_on_merge: actual=false expected=true, default_branch: actual=main expected=trunk"
            );
            match remediation.unwrap().remediation {
                Remediation::RepoSettings { patch, .. } => {
                    assert_eq!(patch.has_wiki, Some(false));
                    assert_eq!(patch.has_issues, None);
                    assert_eq!(patch.default_branch.as_deref(), Some("trunk"));
                }
                other => panic!("unexpected remediation {other:?}"),
            }
        }
        other => panic!("expected Fail, got {other:?}"),
    }
    let rule = RepoSettingsRule::new(settings_cfg());
    match rule.judge(&settings()) {
        RuleResult::Pass { detail } => assert_eq!(detail, "Repository settings match policy"),
        other => panic!("expected Pass, got {other:?}"),
    }
}

fn protection_cfg() -> BranchProtectionConfig {
    BranchProtectionConfig {
        branch: None,
        required_status_checks: None,
        required_pull_request_reviews: None,
        enforce_admins: None,
        required_linear_history: None,
        allow_force_pushes: None,
        allow_deletions: None,
    }
}

#[test]
fn branch_protection_unprotected_branch_differs() {
    let mut cfg = protection_cfg();
    cfg.required_status_checks = Some(RequiredStatusChecksConfig { strict: true, contexts: vec!["ci".to_string()] });
    cfg.enforce_admins = Some(true);
    let rule = BranchProtectionRule::new(cfg);
    let branch = rule.target_branch("main");
    assert_eq!(branch, "main");
    match rule.judge(branch, &None) {
        RuleResult::Fail { detail, remediation } => {
            assert_eq!(
                detail,
                "Branch protection on 'main' differs: required_status_checks: actual=None expected=RequiredStatusChecks { strict: true, contexts: [\"ci\"] }, enforce_admins: actual=false expected=true"
            );
            match remediation.unwrap().remediation {
                Remediation::BranchProtection { branch, patch, .. } => {
                    assert_eq!(branch, "main");
                    assert_eq!(patch.enforce_admins, Some(true));
                    assert_eq!(patch.required_status_checks.unwrap().contexts, vec!["ci".to_string()]);
                }
                other => panic!("unexpected remediation {other:?}"),
            }
        }
        other => panic!("expected Fail, got {other:?}"),
    }
}

#[test]
fn branch_protection_matching_reviews_pass() {
    let mut cfg = protection_cfg();
    cfg.branch = Some("release".to_string());
    cfg.required_pull_request_reviews = Some(RequiredPullRequestReviewsConfig {
        required_approving_review_count: 2,
        dismiss_stale_reviews: false,
        require_code_owner_reviews: true,
    });
    let rule = BranchProtectionRule::new(cfg);
    let actual = BranchProtection {
        required_status_checks: None,
        required_pull_request_reviews: Some(RequiredPullRequestReviews {
            required_approving_review_count: 2,
            dismiss_stale_reviews: false,
            require_code_owner_reviews: true,
        }),
        enforce_admins: false,
        required_linear_history: false,
        allow_force_pushes: false,
        allow_deletions: false,
    };
    let branch = rule.target_branch("main");
    match rule.judge(branch, &Some(actual)) {
        RuleResult::Pass { detail } => assert_eq!(detail, "Branch protection on 'release' matches policy"),
        other => panic!("expected Pass, got {other:?}"),
    }
}

fn link(id: u64, prefix: &str, url: &str) -> Autolink {
    Autolink { id, key_prefix: prefix.to_string(), url_template: url.to_string(), is_alphanumeric: true }
}

#[test]
fn autolink_present_missing_and_drifted() {
    let rule = EnsureAutolinkRule::new(EnsureAutolinkConfig {
        key_prefix: "JIRA-".to_string(),
        url_template: "https://jira/<num>".to_string(),
        is_alphanumeric: true,
    });
    assert_eq!(rule.description(), "Ensure autolink 'JIRA-' -> 'https://jira/<num>'");
    assert!(matches!(rule.judge(&vec![link(1, "JIRA-", "https://jira/<num>")]), RuleResult::Pass { .. }));
    match rule.judge(&vec![]) {
        RuleResult::Fail { detail, .. } => assert_eq!(detail, "Autolink 'JIRA-' is not configured"),
        other => panic!("expected Fail, got {other:?}"),
    }
    match rule.judge(&vec![link(2, "JIRA-", "https://old/<num>")]) {
        RuleResult::Fail { detail, remediation } => {
            assert_eq!(
                detail,
                "Autolink 'JIRA-' targets 'https://old/<num>' (is_alphanumeric: true), expected 'https://jira/<num>' (is_alphanumeric: true)"
            );
            assert_eq!(remediation.unwrap().remediation.description(), "Update autolink 'JIRA-' to target 'https://jira/<num>'");
        }
        other => panic!("expected Fail, got {other:?}"),
    }
}

#[test]
fn missing_with_default_content_creates_it() {
    let mut cfg = ensure_cfg(&["LICENSE"]);
    cfg.default_content = Some("MIT License".to_string());
    let rule = EnsureFileRule::new(cfg);
    match rule.judge(&fetched(&[("LICENSE", None)])).unwrap() {
        RuleResult::Fail { remediation, .. } => match remediation.unwrap().remediation {
            Remediation::FileChanges { changes, .. } => {
                assert_eq!(changes.len(), 1);
                assert_eq!(changes[0].path, "LICENSE");
                assert_eq!(changes[0].content.as_deref(), Some("MIT License\n"));
            }
            other => panic!("expected FileChanges remediation, got {other:?}"),
        },
        other => panic!("expected Fail, got {other:?}"),
    }
}

#[test]
fn creation_body_ends_with_exactly_one_newline() {
    let mut cfg = ensure_cfg(&["a"]);
    cfg.default_content = Some("x\n\n\n".to_string());
    assert_eq!(cfg.creation_body().as_deref(), Some("x\n"));
    cfg.default_content = Some("line one\nline two ".to_string());
    assert_eq!(cfg.creation_body().as_deref(), Some("line one\nline two\n"));
    cfg.must_equal = Some("exact".to_string());
    assert_eq!(cfg.creation_body().as_deref(), Some("exact"));
}

#[test]
fn invalid_regex() {
    let result = FileMatchesRule::new(FileMatchesConfig {
        path: "file.txt".to_string(),
        pattern: r"[invalid".to_string(),
    });
    assert!(result.is_err());
}
