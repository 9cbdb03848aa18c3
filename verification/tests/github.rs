use multipush::error::CoreError;
use multipush::github::{commit_message, map_pr_state, map_repo, map_visibility, resolve_token, single_file_push, tree_entries, ApiRepo, FilePush, IssueStateKind};
use multipush::model::{FileChange, PrState, Visibility};

#[test]
fn test_map_visibility() {
    assert_eq!(map_visibility(Some("public")), Visibility::Public);
    assert_eq!(map_visibility(Some("private")), Visibility::Private);
    assert_eq!(map_visibility(Some("internal")), Visibility::Internal);
    assert_eq!(map_visibility(None), Visibility::Private);
    assert_eq!(map_visibility(Some("unknown")), Visibility::Private);
}

#[test]
fn test_resolve_token_literal() {
    assert_eq!(resolve_token("ghp_abc", None).unwrap(), "ghp_abc");
}

#[test]
fn test_resolve_token_from_env_value() {
    assert_eq!(resolve_token("${GITHUB_TOKEN}", Some("from-env".to_string())).unwrap(), "from-env");
}

#[test]
fn test_resolve_token_empty_and_missing_fail() {
    assert!(matches!(resolve_token("", None), Err(CoreError::Provider(_))));
    assert!(matches!(resolve_token("${GITHUB_TOKEN}", None), Err(CoreError::Provider(_))));
    assert!(matches!(resolve_token("${GITHUB_TOKEN}", Some(String::new())), Err(CoreError::Provider(_))));
}

#[test]
fn test_map_repo_with_defaults() {
    let api = ApiRepo {
        name: "beta".to_string(),
        full_name: None,
        owner_login: None,
        default_branch: None,
        archived: None,
        visibility: None,
        topics: None,
        language: None,
    };
    let r = map_repo(api, "acme");
    assert_eq!(r.full_name, "acme/beta");
    assert_eq!(r.owner, "acme");
    assert_eq!(r.default_branch, "main");
    assert!(!r.archived);
    assert_eq!(r.visibility, Visibility::Private);
    assert!(r.topics.is_empty());
}

#[test]
fn test_pr_state_mapping() {
    assert_eq!(map_pr_state(Some(IssueStateKind::Open), false), PrState::Open);
    assert_eq!(map_pr_state(Some(IssueStateKind::Closed), true), PrState::Merged);
    assert_eq!(map_pr_state(Some(IssueStateKind::Closed), false), PrState::Closed);
    assert_eq!(map_pr_state(None, true), PrState::Open);
}

#[test]
fn test_tree_entries_and_message() {
    let changes = vec![
        FileChange { path: "a.txt".to_string(), content: Some("x".to_string()), message: "first".to_string() },
        FileChange { path: "b.txt".to_string(), content: None, message: "second".to_string() },
    ];
    let es = tree_entries(&changes);
    assert_eq!(es.len(), 2);
    assert_eq!(es[0].mode, "100644");
    assert!(!es[0].delete);
    assert!(es[1].delete);
    assert_eq!(commit_message(&changes), "first");
    assert_eq!(commit_message(&vec![]), "multipush apply");
}

#[test]
fn test_resolve_token_empty_fails() {
    let result = resolve_token("", None);
    assert!(result.is_err());
    match result.unwrap_err() {
        CoreError::Provider(m) => assert!(m.contains("GitHub token not configured")),
        other => panic!("unexpected error {:?}", other),
    }
}

#[test]
fn test_map_repo_from_json() {
    let api = ApiRepo {
        name: "my-repo".to_string(),
        full_name: Some("my-org/my-repo".to_string()),
        owner_login: Some("my-org".to_string()),
        default_branch: Some("develop".to_string()),
        archived: Some(false),
        visibility: Some("public".to_string()),
        topics: Some(vec!["rust".to_string(), "cli".to_string()]),
        language: Some("Rust".to_string()),
    };
    let repo = map_repo(api, "my-org");

    assert_eq!(repo.name, "my-repo");
    assert_eq!(repo.full_name, "my-org/my-repo");
    assert_eq!(repo.owner, "my-org");
    assert_eq!(repo.default_branch, "develop");
    assert!(!repo.archived);
    assert_eq!(repo.visibility, Visibility::Public);
    assert_eq!(repo.topics, vec!["rust", "cli"]);
    assert_eq!(repo.language, Some("Rust".to_string()));
    assert!(repo.custom_properties.is_empty());
}

#[test]
fn single_file_push_decisions() {
    let write = FileChange { path: "a.txt".to_string(), content: Some("x".to_string()), message: "m".to_string() };
    let delete = FileChange { path: "b.txt".to_string(), content: None, message: "m".to_string() };
    assert_eq!(single_file_push(&write, Some("sha1".to_string())).unwrap(), FilePush::Update("sha1".to_string()));
    assert_eq!(single_file_push(&write, None).unwrap(), FilePush::Create);
    assert_eq!(single_file_push(&delete, Some("sha2".to_string())).unwrap(), FilePush::Delete("sha2".to_string()));
    match single_file_push(&delete, None) {
        Err(CoreError::Provider(m)) => assert_eq!(m, "Cannot delete non-existent file: b.txt"),
        other => panic!("unexpected {other:?}"),
    }
}
