//! Configuration model: provider, defaults and policies with their rules.

use vstd::prelude::*;

use crate::json::Json;
use crate::model::{AutolinkSpec, Severity, Visibility};
use crate::policy_source::opt_view;
use crate::text::{push_char, trim_end, trim_end_str};

verus! {

/// Which hosting platform the provider talks to.
#[derive(Debug, Clone, Copy, PartialEq, Eq, Structural)]
pub enum ProviderType {
    Github,
    Gitea,
}

/// Connection settings for the hosting platform.
#[derive(Debug, Clone)]
pub struct ProviderConfig {
    pub provider_type: ProviderType,
    pub org: String,
    pub token: String,
    pub base_url: Option<String>,
}

/// Strategy when an open PR is already present on the remediation branch.
#[derive(Debug, Clone, Copy, PartialEq, Eq, Structural)]
pub enum ExistingPrStrategy {
    Skip,
    Update,
    Recreate,
}

impl Default for ExistingPrStrategy {
    fn default() -> (s: Self)
        ensures
            s == ExistingPrStrategy::Update,
    {
        ExistingPrStrategy::Update
    }
}

/// Settings for the apply phase.
#[derive(Debug, Clone)]
pub struct ApplyConfig {
    pub pr_prefix: String,
    pub commit_author: Option<String>,
    pub pr_labels: Vec<String>,
    pub pr_draft: bool,
    pub existing_pr: ExistingPrStrategy,
}

/// The branch prefix used when a config does not name one.
pub fn default_pr_prefix() -> (s: String)
    ensures
        s@ == "multipush"@,
{
    "multipush".to_owned()
}

/// Defaults applied to all policies.
#[derive(Debug, Clone)]
pub struct DefaultsConfig {
    pub targets: Option<TargetConfig>,
    pub apply: Option<ApplyConfig>,
}

/// Which repositories a policy targets.
#[derive(Debug, Clone)]
pub struct TargetConfig {
    /// One or more glob patterns; a repo matches if any of them matches.
    pub repos: Vec<String>,
    pub exclude: Vec<String>,
    pub exclude_archived: bool,
    pub filters: Vec<FilterConfig>,
}

/// The value `exclude_archived` takes when a config omits it.
pub fn default_true() -> (b: bool)
    ensures
        b,
{
    true
}

/// An additional targeting filter.
#[derive(Debug, Clone)]
pub enum FilterConfig {
    HasFile(String),
    Topic(String),
    Visibility(Visibility),
    CustomProperty(CustomPropertyFilter),
}

/// Matches (or, with `negate`, excludes) repos where the custom property `key` is `value`.
#[derive(Debug, Clone)]
pub struct CustomPropertyFilter {
    pub key: String,
    pub value: String,
    pub negate: bool,
}

/// One policy: a set of rules evaluated against the targeted repositories.
#[derive(Debug, Clone)]
pub struct PolicyConfig {
    pub name: String,
    pub description: Option<String>,
    pub severity: Severity,
    pub targets: TargetConfig,
    pub rules: Vec<RuleDefinition>,
}

/// The whole, merged configuration.
#[derive(Debug, Clone)]
pub struct RootConfig {
    pub provider: ProviderConfig,
    pub defaults: Option<DefaultsConfig>,
    pub policies: Vec<PolicyConfig>,
}

/// Where a config fragment comes from.
#[derive(Debug, Clone, PartialEq, Eq)]
pub enum ConfigSource {
    /// A single YAML file.
    FilePath(String),
    /// A directory: all `*.yml` / `*.yaml` files, alphabetically.
    Directory(String),
}

/// A rule definition, tagged by its type.
#[derive(Debug, Clone)]
pub enum RuleDefinition {
    EnsureFile(EnsureFileConfig),
    EnsureJsonKey(EnsureJsonKeyConfig),
    EnsureYamlKey(EnsureYamlKeyConfig),
    FileMatches(FileMatchesConfig),
    RepoSettings(RepoSettingsConfig),
    BranchProtection(BranchProtectionConfig),
    FileAbsent(FileAbsentConfig),
    EnsureAutolink(EnsureAutolinkConfig),
}

/// Parameters of `ensure_file`.
#[derive(Debug, Clone)]
pub struct EnsureFileConfig {
    /// Single file path to check; `paths` takes precedence when set.
    pub path: Option<String>,
    /// Candidate paths in priority order (any-of); the first is the creation location.
    pub paths: Vec<String>,
    /// Body written when the file is missing; never enforced on existing files.
    pub default_content: Option<String>,
    /// Predicate: an existing file must contain this substring.
    pub must_contain: Option<String>,
    /// Predicate: an existing file must match this regular expression.
    pub must_match: Option<String>,
    /// Predicate: an existing file must equal this exactly; also the creation body.
    pub must_equal: Option<String>,
}

/// Whether a key rule only reports or also remediates.
#[derive(Debug, Clone, Copy, PartialEq, Eq, Structural)]
pub enum JsonKeyMode {
    CheckOnly,
    Enforce,
}

impl Default for JsonKeyMode {
    fn default() -> (m: Self)
        ensures
            m == JsonKeyMode::CheckOnly,
    {
        JsonKeyMode::CheckOnly
    }
}

/// Parameters of `ensure_json_key`.
#[derive(Debug, Clone)]
pub struct EnsureJsonKeyConfig {
    pub path: String,
    pub key: String,
    pub value: Option<Json>,
    pub mode: JsonKeyMode,
}

/// Parameters of `ensure_yaml_key`.
#[derive(Debug, Clone)]
pub struct EnsureYamlKeyConfig {
    pub path: String,
    pub key: String,
    pub value: Option<Json>,
    pub mode: JsonKeyMode,
}

/// Parameters of `file_matches`.
#[derive(Debug, Clone)]
pub struct FileMatchesConfig {
    pub path: String,
    pub pattern: String,
}

/// Required status checks as configured.
#[derive(Debug, Clone)]
pub struct RequiredStatusChecksConfig {
    pub strict: bool,
    pub contexts: Vec<String>,
}

/// Required pull-request reviews as configured.
#[derive(Debug, Clone, Copy, PartialEq, Eq, Structural)]
pub struct RequiredPullRequestReviewsConfig {
    pub required_approving_review_count: u32,
    pub dismiss_stale_reviews: bool,
    pub require_code_owner_reviews: bool,
}

/// Parameters of `branch_protection`.
#[derive(Debug, Clone)]
pub struct BranchProtectionConfig {
    /// Branch to protect; the repo's default branch when omitted.
    pub branch: Option<String>,
    pub required_status_checks: Option<RequiredStatusChecksConfig>,
    pub required_pull_request_reviews: Option<RequiredPullRequestReviewsConfig>,
    pub enforce_admins: Option<bool>,
    pub required_linear_history: Option<bool>,
    pub allow_force_pushes: Option<bool>,
    pub allow_deletions: Option<bool>,
}

/// Parameters of `repo_settings`.
#[derive(Debug, Clone)]
pub struct RepoSettingsConfig {
    pub has_issues: Option<bool>,
    pub has_wiki: Option<bool>,
    pub has_projects: Option<bool>,
    pub allow_merge_commit: Option<bool>,
    pub allow_squash_merge: Option<bool>,
    pub allow_rebase_merge: Option<bool>,
    pub delete_branch_on_merge: Option<bool>,
    pub allow_auto_merge: Option<bool>,
    pub default_branch: Option<String>,
}

/// Parameters of `file_absent`.
#[derive(Debug, Clone)]
pub struct FileAbsentConfig {
    pub path: String,
}

/// Parameters of `ensure_autolink`.
#[derive(Debug, Clone)]
pub struct EnsureAutolinkConfig {
    pub key_prefix: String,
    pub url_template: String,
    pub is_alphanumeric: bool,
}


impl EnsureFileConfig {
    /// The paths to check, in priority order: `paths` when it is non-empty, else `path`.
    pub open spec fn spec_candidate_paths(&self) -> Seq<Seq<char>> {
        if self.paths@.len() > 0 {
            self.paths.deep_view()
        } else {
            match self.path {
                Some(p) => seq![p@],
                None => Seq::empty(),
            }
        }
    }

    /// The paths to check, in priority order. `paths` takes precedence over the single
    /// `path`; the first entry is the canonical location for creation.
    pub fn candidate_paths(&self) -> (v: Vec<String>)
        ensures
            v.deep_view() == self.spec_candidate_paths(),
    {
        if self.paths.len() > 0 {
            let v = self.paths.clone();
            proof { assert(v.deep_view() =~= self.paths.deep_view()); }
            v
        } else {
            let mut v: Vec<String> = Vec::new();
            if let Some(p) = &self.path {
                v.push(p.clone());
            }
            proof { assert(v.deep_view() =~= self.spec_candidate_paths()); }
            v
        }
    }

    /// The body written when the file is missing: `must_equal` when set, verbatim, else
    /// `default_content` ending in exactly one newline (trailing white space, including a
    /// newline folded into a space, becomes a single newline).
    pub open spec fn spec_creation_body(&self) -> Option<Seq<char>> {
        match self.must_equal {
            Some(e) => Some(e@),
            None => match self.default_content {
                Some(d) => Some(trim_end(d@).push('\n')),
                None => None,
            },
        }
    }

    /// The content to write when creating a missing file: `must_equal` if set (it is
    /// authoritative and kept verbatim), otherwise `default_content` normalized to end with
    /// exactly one newline. `None` means the rule does not know what to put in it.
    pub fn creation_body(&self) -> (b: Option<String>)
        ensures
            match b {
                Some(s) => self.spec_creation_body() == Some(s@),
                None => self.spec_creation_body() is None,
            },
    {
        match &self.must_equal {
            Some(e) => Some(e.clone()),
            None => match &self.default_content {
                Some(d) => {
                    let mut body = trim_end_str(d.as_str()).to_owned();
                    push_char(&mut body, '\n');
                    Some(body)
                },
                None => None,
            },
        }
    }
}


impl EnsureAutolinkConfig {
    /// The autolink this config asks for.
    pub fn to_spec(&self) -> (s: AutolinkSpec)
        ensures
            s.key_prefix == self.key_prefix,
            s.url_template == self.url_template,
            s.is_alphanumeric == self.is_alphanumeric,
    {
        AutolinkSpec {
            key_prefix: self.key_prefix.clone(),
            url_template: self.url_template.clone(),
            is_alphanumeric: self.is_alphanumeric,
        }
    }
}

} // verus!
