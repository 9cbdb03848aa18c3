//! The decisions of the GitHub provider that do not need the network: how API records map to
//! the library's model, which token is used, and what a tree-API commit contains.

use vstd::prelude::*;
use vstd::string::*;

use crate::error::CoreError;
use crate::model::{FileChange, PrState, Repo, Visibility};
use crate::policy_source::opt_view;
use crate::text::{concat3, str_eq};

verus! {

/// The message given when no token can be found.
pub open spec fn missing_token_message() -> Seq<char> {
    "GitHub token not configured. Set GITHUB_TOKEN environment variable or add provider.token to your config."@
}

/// The repository visibility named by the API (`public`, `internal`); anything else is private.
pub open spec fn visibility_of(vis: Option<Seq<char>>) -> Visibility {
    match vis {
        Some(v) => if v == "public"@ {
            Visibility::Public
        } else if v == "internal"@ {
            Visibility::Internal
        } else {
            Visibility::Private
        },
        None => Visibility::Private,
    }
}

/// Map the API's visibility string to a [`Visibility`].
pub fn map_visibility(vis: Option<&str>) -> (v: Visibility)
    ensures
        v == visibility_of(match vis { Some(s) => Some(s@), None => None }),
{
    match vis {
        Some(s) => if str_eq(s, "public") {
            Visibility::Public
        } else if str_eq(s, "internal") {
            Visibility::Internal
        } else {
            Visibility::Private
        },
        None => Visibility::Private,
    }
}

/// The state of an issue or pull request as the API reports it.
#[derive(Debug, Clone, Copy, PartialEq, Eq, Structural)]
pub enum IssueStateKind {
    Open,
    Closed,
}

/// The lifecycle state of a pull request: a closed one with a merge time is merged; an
/// unknown state counts as open.
pub open spec fn pr_state_of(state: Option<IssueStateKind>, merged: bool) -> PrState {
    match state {
        Some(IssueStateKind::Closed) => if merged { PrState::Merged } else { PrState::Closed },
        _ => PrState::Open,
    }
}

/// Map the API's pull-request state and merge time to a [`PrState`].
pub fn map_pr_state(state: Option<IssueStateKind>, merged: bool) -> (s: PrState)
    ensures
        s == pr_state_of(state, merged),
{
    match state {
        Some(IssueStateKind::Closed) => if merged { PrState::Merged } else { PrState::Closed },
        _ => PrState::Open,
    }
}

/// The raw fields of a repository as the API lists it; absent ones are `None`.
#[derive(Debug)]
pub struct ApiRepo {
    pub name: String,
    pub full_name: Option<String>,
    pub owner_login: Option<String>,
    pub default_branch: Option<String>,
    pub archived: Option<bool>,
    pub visibility: Option<String>,
    pub topics: Option<Vec<String>>,
    pub language: Option<String>,
}

/// Build a [`Repo`] from an API listing under `org`, filling what the API left out: the full
/// name as `org/name`, the owner as `org`, the default branch as `main`, not archived,
/// private, no topics.
pub fn map_repo(api: ApiRepo, org: &str) -> (r: Repo)
    ensures
        r.name@ == api.name@,
        r.full_name@ == match api.full_name {
            Some(f) => f@,
            None => org@ + "/"@ + api.name@,
        },
        r.owner@ == match api.owner_login {
            Some(o) => o@,
            None => org@,
        },
        r.default_branch@ == match api.default_branch {
            Some(b) => b@,
            None => "main"@,
        },
        r.archived == match api.archived {
            Some(a) => a,
            None => false,
        },
        r.visibility == visibility_of(opt_view(api.visibility)),
        r.topics@ == match api.topics {
            Some(t) => t@,
            None => Seq::empty(),
        },
        opt_view(r.language) == opt_view(api.language),
        r.custom_properties@.len() == 0,
{
    let full_name = match api.full_name {
        Some(f) => f,
        None => concat3(org, "/", api.name.as_str()),
    };
    let owner = match api.owner_login {
        Some(o) => o,
        None => org.to_owned(),
    };
    let default_branch = match api.default_branch {
        Some(b) => b,
        None => "main".to_owned(),
    };
    let archived = match api.archived {
        Some(a) => a,
        None => false,
    };
    let visibility = match &api.visibility {
        Some(v) => map_visibility(Some(v.as_str())),
        None => map_visibility(None),
    };
    let topics = match api.topics {
        Some(t) => t,
        None => Vec::new(),
    };
    Repo {
        owner,
        name: api.name,
        full_name,
        default_branch,
        archived,
        visibility,
        topics,
        language: api.language,
        custom_properties: Vec::new(),
    }
}

/// The token to use: the environment's `GITHUB_TOKEN` when the config names it as
/// `${GITHUB_TOKEN}` (an error when that is unset or empty), else the configured value, which
/// must not be empty.
pub fn resolve_token(raw: &str, env_token: Option<String>) -> (r: Result<String, CoreError>)
    ensures
        raw@ == "${GITHUB_TOKEN}"@ ==> match env_token {
            Some(t) => if t@.len() > 0 {
                r matches Ok(tok) && tok@ == t@
            } else {
                r matches Err(CoreError::Provider(m)) && m@ == missing_token_message()
            },
            None => r matches Err(CoreError::Provider(m)) && m@ == missing_token_message(),
        },
        raw@ != "${GITHUB_TOKEN}"@ ==> if raw@.len() == 0 {
            r matches Err(CoreError::Provider(m)) && m@ == missing_token_message()
        } else {
            r matches Ok(tok) && tok@ == raw@
        },
{
    let missing = "GitHub token not configured. Set GITHUB_TOKEN environment variable or add provider.token to your config.";
    if str_eq(raw, "${GITHUB_TOKEN}") {
        match env_token {
            Some(t) => if t.unicode_len() > 0 {
                Ok(t)
            } else {
                Err(CoreError::Provider(missing.to_owned()))
            },
            None => Err(CoreError::Provider(missing.to_owned())),
        }
    } else if raw.unicode_len() == 0 {
        Err(CoreError::Provider(missing.to_owned()))
    } else {
        Ok(raw.to_owned())
    }
}

/// One entry of a tree-API commit: a blob written with `content`, or deleted.
#[derive(Debug)]
pub struct TreeEntry {
    pub path: String,
    pub mode: String,
    pub entry_type: String,
    /// The new content; `None` together with `delete` removes the path.
    pub content: Option<String>,
    /// Whether the entry deletes the path (sent as a null SHA).
    pub delete: bool,
}

/// The tree entries for a set of file changes, one per change in order: regular-file blobs,
/// deletions where the change has no content.
pub open spec fn tree_entry_matches(e: TreeEntry, c: FileChange) -> bool {
    &&& e.path@ == c.path@
    &&& e.mode@ == "100644"@
    &&& e.entry_type@ == "blob"@
    &&& opt_view(e.content) == opt_view(c.content)
    &&& e.delete == (c.content is None)
}

/// Build the tree entries of a commit that applies `changes`.
pub fn tree_entries(changes: &Vec<FileChange>) -> (es: Vec<TreeEntry>)
    ensures
        es@.len() == changes@.len(),
        forall|i: int| 0 <= i < changes@.len() ==> tree_entry_matches(#[trigger] es@[i], changes@[i]),
{
    let mut es: Vec<TreeEntry> = Vec::new();
    for i in 0..changes.len()
        invariant
            es@.len() == i,
            forall|j: int| 0 <= j < i ==> tree_entry_matches(#[trigger] es@[j], changes@[j]),
    {
        let c = &changes[i];
        let content = crate::model::clone_opt_string(&c.content);
        let delete = c.content.is_none();
        es.push(TreeEntry {
            path: c.path.clone(),
            mode: "100644".to_owned(),
            entry_type: "blob".to_owned(),
            content,
            delete,
        });
    }
    es
}

/// The commit message of a tree-API commit: the first change's, or `multipush apply`.
pub fn commit_message(changes: &Vec<FileChange>) -> (m: &str)
    ensures
        m@ == if changes@.len() > 0 { changes@[0].message@ } else { "multipush apply"@ },
{
    if changes.len() > 0 {
        changes[0].message.as_str()
    } else {
        "multipush apply"
    }
}

/// How one file change is pushed through the contents API.
#[derive(Debug, PartialEq, Eq)]
pub enum FilePush {
    /// Write a new file.
    Create,
    /// Overwrite the existing file with this blob SHA.
    Update(String),
    /// Delete the existing file with this blob SHA.
    Delete(String),
}

/// Decide how to push `change` given the SHA of the file now on the branch (`None` when it
/// does not exist): a write updates an existing file or creates it; a deletion needs the file
/// to exist.
pub fn single_file_push(change: &FileChange, existing_sha: Option<String>) -> (r: Result<FilePush, CoreError>)
    ensures
        match (change.content, existing_sha) {
            (Some(_), Some(sha)) => r matches Ok(FilePush::Update(s)) && s@ == sha@,
            (Some(_), None) => r matches Ok(FilePush::Create),
            (None, Some(sha)) => r matches Ok(FilePush::Delete(s)) && s@ == sha@,
            (None, None) => r matches Err(CoreError::Provider(m)) && m@ == "Cannot delete non-existent file: "@ + change.path@,
        },
{
    match (&change.content, existing_sha) {
        (Some(_), Some(sha)) => Ok(FilePush::Update(sha)),
        (Some(_), None) => Ok(FilePush::Create),
        (None, Some(sha)) => Ok(FilePush::Delete(sha)),
        (None, None) => {
            proof { reveal_strlit(""); }
            Err(CoreError::Provider(concat3("Cannot delete non-existent file: ", change.path.as_str(), "")))
        },
    }
}

} // verus!
