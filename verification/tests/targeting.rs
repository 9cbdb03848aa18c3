use multipush::config::{FilterConfig, TargetConfig};
use multipush::engine::targeting::{filter_repos_basic, filter_step, FilterStep};
use multipush::error::CoreError;
use multipush::model::{Repo, Visibility};

fn make_repo(full_name: &str, archived: bool) -> Repo {
    let parts: Vec<&str> = full_name.splitn(2, '/').collect();
    Repo {
        owner: parts[0].to_string(),
        name: parts.get(1).unwrap_or(&"").to_string(),
        full_name: full_name.to_string(),
        default_branch: "main".to_string(),
        archived,
        visibility: Visibility::Private,
        topics: vec![],
        language: None,
        custom_properties: vec![],
    }
}

fn targets(repos: &str) -> TargetConfig {
    TargetConfig { repos: vec![repos.to_string()], exclude: vec![], exclude_archived: true, filters: vec![] }
}

#[test]
fn include_matching() {
    let repos = vec![make_repo("org/alpha", false), make_repo("org/beta", false), make_repo("other/gamma", false)];

    let result = filter_repos_basic(&repos, &targets("org/*")).unwrap();
    assert_eq!(result.len(), 2);
    assert!(result.iter().all(|r| r.owner == "org"));
}

#[test]
fn exclude_filtering() {
    let repos = vec![make_repo("org/alpha", false), make_repo("org/beta", false), make_repo("org/alpha-fork", false)];

    let t = TargetConfig {
        repos: vec!["org/*".to_string()],
        exclude: vec!["org/alpha".to_string()],
        exclude_archived: true,
        filters: vec![],
    };

    let result = filter_repos_basic(&repos, &t).unwrap();
    assert_eq!(result.len(), 2);
    assert!(result.iter().all(|r| r.full_name != "org/alpha"));
}

#[test]
fn archived_filtering() {
    let repos = vec![make_repo("org/active", false), make_repo("org/old", true)];

    let result = filter_repos_basic(&repos, &targets("org/*")).unwrap();
    assert_eq!(result.len(), 1);
    assert_eq!(result[0].full_name, "org/active");
}

#[test]
fn archived_included_when_disabled() {
    let repos = vec![make_repo("org/active", false), make_repo("org/old", true)];

    let t = TargetConfig { repos: vec!["org/*".to_string()], exclude: vec![], exclude_archived: false, filters: vec![] };

    let result = filter_repos_basic(&repos, &t).unwrap();
    assert_eq!(result.len(), 2);
}

#[test]
fn combined_filters() {
    let repos = vec![
        make_repo("org/keep", false),
        make_repo("org/exclude-me", false),
        make_repo("org/archived", true),
        make_repo("other/nope", false),
    ];

    let t = TargetConfig {
        repos: vec!["org/*".to_string()],
        exclude: vec!["org/exclude-*".to_string()],
        exclude_archived: true,
        filters: vec![],
    };

    let result = filter_repos_basic(&repos, &t).unwrap();
    assert_eq!(result.len(), 1);
    assert_eq!(result[0].full_name, "org/keep");
}

#[test]
fn invalid_glob_error() {
    let repos = vec![make_repo("org/a", false)];
    let t = TargetConfig { repos: vec!["[invalid".to_string()], exclude: vec![], exclude_archived: true, filters: vec![] };

    let err = filter_repos_basic(&repos, &t).unwrap_err();
    match err {
        CoreError::Config(m) => assert!(m.contains("invalid include glob")),
        other => panic!("unexpected error {:?}", other),
    }
}

#[test]
fn any_of_several_include_patterns_selects() {
    let repos = vec![make_repo("org/a", false), make_repo("team/b", false), make_repo("x/c", false)];
    let t = TargetConfig {
        repos: vec!["org/*".to_string(), "team/*".to_string()],
        exclude: vec![],
        exclude_archived: true,
        filters: vec![],
    };
    let result = filter_repos_basic(&repos, &t).unwrap();
    let names: Vec<&str> = result.iter().map(|r| r.full_name.as_str()).collect();
    assert_eq!(names, vec!["org/a", "team/b"]);
}

#[test]
fn invalid_exclude_glob_error() {
    let repos = vec![make_repo("org/a", false)];
    let t = TargetConfig {
        repos: vec!["org/*".to_string()],
        exclude: vec!["[bad".to_string()],
        exclude_archived: true,
        filters: vec![],
    };
    match filter_repos_basic(&repos, &t).unwrap_err() {
        CoreError::Config(m) => assert!(m.starts_with("invalid exclude glob '[bad': ")),
        other => panic!("unexpected error {:?}", other),
    }
}

#[test]
fn filter_steps_ask_for_files_in_order() {
    let mut repo = make_repo("org/a", false);
    repo.topics = vec!["security".to_string()];
    let filters = vec![
        FilterConfig::Topic("security".to_string()),
        FilterConfig::HasFile("README.md".to_string()),
        FilterConfig::Visibility(Visibility::Private),
    ];
    assert_eq!(filter_step(&repo, &filters, &vec![]), FilterStep::NeedFile(1));
    assert_eq!(filter_step(&repo, &filters, &vec![("README.md".to_string(), true)]), FilterStep::Accepted);
    assert_eq!(filter_step(&repo, &filters, &vec![("README.md".to_string(), false)]), FilterStep::Rejected);

    let other = make_repo("org/b", false);
    assert_eq!(filter_step(&other, &filters, &vec![]), FilterStep::Rejected);
}

#[test]
fn oversized_exclude_glob_is_a_config_error() {
    let repos = vec![make_repo("org/a", false)];
    let t = TargetConfig {
        repos: vec!["org/*".to_string()],
        exclude: vec!["?".repeat(1_000_000)],
        exclude_archived: true,
        filters: vec![],
    };
    match filter_repos_basic(&repos, &t).unwrap_err() {
        CoreError::Config(m) => assert!(m.starts_with("failed to build exclude set: ")),
        other => panic!("unexpected error {:?}", other),
    }
}
