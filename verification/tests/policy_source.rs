use multipush::policy_source::{ActionsEnv, PolicySourceInfo};

#[test]
fn default_is_absent() {
    let info = PolicySourceInfo::default();
    assert!(!info.is_present());
    assert!(info.render_markdown().is_none());
}

#[test]
fn repo_url_only_renders_tree_link_without_sha() {
    let info = PolicySourceInfo::default().with_repo_url("https://github.com/waratek/cml");
    let md = info.render_markdown().unwrap();
    assert!(md.contains("[waratek/cml](https://github.com/waratek/cml)"));
    assert!(!md.contains("/tree/"));
}

#[test]
fn sha_pins_tree_link_to_commit() {
    let mut info = PolicySourceInfo::default().with_repo_url("https://github.com/waratek/cml");
    info.commit_sha = Some("992aaab123456789abcdef".to_string());
    let md = info.render_markdown().unwrap();
    assert!(md.contains("/tree/992aaab123456789abcdef"));
    // Label uses the short sha for readability.
    assert!(md.contains("waratek/cml @ 992aaab"));
}

#[test]
fn workflow_run_emits_dedicated_line() {
    let info = PolicySourceInfo {
        workflow_run_url: Some(
            "https://github.com/waratek/cml/actions/runs/8123456789".to_string(),
        ),
        workflow_name: Some("policy-enforcement".to_string()),
        ..Default::default()
    };
    let md = info.render_markdown().unwrap();
    assert!(md.contains("workflow run (policy-enforcement)"));
    assert!(md.contains("actions/runs/8123456789"));
}

#[test]
fn full_block_renders_both_lines_exactly() {
    let info = PolicySourceInfo {
        repo_url: Some("https://github.com/org/policies".to_string()),
        commit_sha: Some("abcdef0123".to_string()),
        workflow_run_url: Some("https://github.com/org/policies/actions/runs/7".to_string()),
        ..Default::default()
    };
    assert_eq!(
        info.render_markdown().unwrap(),
        "Policy defined in [org/policies @ abcdef0](https://github.com/org/policies/tree/abcdef0123)\n\
         Opened by [workflow run](https://github.com/org/policies/actions/runs/7)\n"
    );
}

#[test]
fn short_sha_and_schemeless_url_are_kept_whole() {
    let mut info = PolicySourceInfo::default().with_repo_url("policies");
    info.commit_sha = Some("abc".to_string());
    assert_eq!(
        info.render_markdown().unwrap(),
        "Policy defined in [policies @ abc](policies/tree/abc)\n"
    );
}

#[test]
fn ref_name_alone_is_present_but_renders_empty() {
    let info = PolicySourceInfo { ref_name: Some("main".to_string()), ..Default::default() };
    assert!(info.is_present());
    assert_eq!(info.render_markdown().unwrap(), "");
}

fn actions_env(actions: Option<&str>, server: Option<&str>, repo: Option<&str>, run: Option<&str>) -> ActionsEnv {
    ActionsEnv {
        actions: actions.map(|s| s.to_string()),
        server_url: server.map(|s| s.to_string()),
        repository: repo.map(|s| s.to_string()),
        sha: Some("abc123".to_string()),
        ref_name: Some(String::new()),
        run_id: run.map(|s| s.to_string()),
        workflow: Some("policy-enforcement".to_string()),
    }
}

#[test]
fn actions_env_outside_actions_is_empty() {
    let info = PolicySourceInfo::from_github_actions_env(&actions_env(Some("false"), None, Some("o/r"), Some("7")));
    assert!(!info.is_present());
    let info = PolicySourceInfo::from_github_actions_env(&actions_env(None, None, Some("o/r"), Some("7")));
    assert!(!info.is_present());
}

#[test]
fn actions_env_builds_urls_on_the_server() {
    let info = PolicySourceInfo::from_github_actions_env(&actions_env(Some("true"), None, Some("o/r"), Some("7")));
    assert_eq!(info.repo_url.as_deref(), Some("https://github.com/o/r"));
    assert_eq!(info.workflow_run_url.as_deref(), Some("https://github.com/o/r/actions/runs/7"));
    assert_eq!(info.commit_sha.as_deref(), Some("abc123"));
    assert_eq!(info.ref_name, None);
    assert_eq!(info.workflow_name.as_deref(), Some("policy-enforcement"));

    let ghe = PolicySourceInfo::from_github_actions_env(&actions_env(Some("true"), Some("https://ghe.example"), Some("o/r"), None));
    assert_eq!(ghe.repo_url.as_deref(), Some("https://ghe.example/o/r"));
    assert_eq!(ghe.workflow_run_url, None);
}
