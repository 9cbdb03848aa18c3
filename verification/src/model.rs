//! Repository, pull-request and settings data shared by rules, engine and renderers.

use vstd::prelude::*;
use vstd::string::*;

use crate::text::str_eq;

verus! {

/// Repository visibility level.
#[derive(Debug, Clone, Copy, PartialEq, Eq, Structural)]
pub enum Visibility {
    Public,
    Private,
    Internal,
}

/// A repository on the hosting platform.
#[derive(Debug)]
pub struct Repo {
    pub owner: String,
    pub name: String,
    pub full_name: String,
    pub default_branch: String,
    pub archived: bool,
    pub visibility: Visibility,
    pub topics: Vec<String>,
    pub language: Option<String>,
    /// Organization-defined custom properties, in the order the platform listed them.
    pub custom_properties: Vec<CustomProperty>,
}

/// One organization-defined custom property of a repository.
#[derive(Debug)]
pub struct CustomProperty {
    pub key: String,
    pub value: String,
}

impl Clone for CustomProperty {
    fn clone(&self) -> (res: Self)
        ensures
            res == *self,
    {
        CustomProperty { key: self.key.clone(), value: self.value.clone() }
    }
}

impl Repo {
    /// Two repository records carry the same data.
    pub open spec fn same(self, other: Repo) -> bool {
        &&& self.owner == other.owner
        &&& self.name == other.name
        &&& self.full_name == other.full_name
        &&& self.default_branch == other.default_branch
        &&& self.archived == other.archived
        &&& self.visibility == other.visibility
        &&& self.topics@ == other.topics@
        &&& self.language == other.language
        &&& self.custom_properties@ == other.custom_properties@
    }
}

impl Clone for Repo {
    fn clone(&self) -> (res: Self)
        ensures
            res.same(*self),
    {
        let topics = self.topics.clone();
        proof { assert(topics@ =~= self.topics@); }
        let custom_properties = clone_properties(&self.custom_properties);
        Repo {
            owner: self.owner.clone(),
            name: self.name.clone(),
            full_name: self.full_name.clone(),
            default_branch: self.default_branch.clone(),
            archived: self.archived,
            visibility: self.visibility,
            topics,
            language: clone_opt_string(&self.language),
            custom_properties,
        }
    }
}

fn clone_properties(v: &Vec<CustomProperty>) -> (res: Vec<CustomProperty>)
    ensures
        res@ == v@,
{
    let mut res: Vec<CustomProperty> = Vec::new();
    for i in 0..v.len()
        invariant
            res@ == v@.take(i as int),
    {
        res.push(v[i].clone());
        proof { assert(v@.take(i + 1) =~= v@.take(i as int).push(v@[i as int])); }
    }
    proof { assert(v@.take(v@.len() as int) =~= v@); }
    res
}

/// Copy an optional string, keeping its value.
pub fn clone_opt_string(o: &Option<String>) -> (res: Option<String>)
    ensures
        res == *o,
{
    match o {
        Some(s) => Some(s.clone()),
        None => None,
    }
}


/// The contents and metadata of a single file retrieved from a repository.
#[derive(Debug, Clone)]
pub struct FileContent {
    pub path: String,
    pub content: String,
    pub sha: String,
}

/// A pull request on the hosting platform.
#[derive(Debug)]
pub struct PullRequest {
    pub number: u64,
    pub title: String,
    pub head_branch: String,
    pub url: String,
    pub state: PrState,
}

impl Clone for PullRequest {
    fn clone(&self) -> (res: Self)
        ensures
            res == *self,
    {
        PullRequest {
            number: self.number,
            title: self.title.clone(),
            head_branch: self.head_branch.clone(),
            url: self.url.clone(),
            state: self.state,
        }
    }
}

/// Pull request lifecycle state.
#[derive(Debug, Clone, Copy, PartialEq, Eq, Structural)]
pub enum PrState {
    Open,
    Closed,
    Merged,
}

/// A file create/update/delete operation for a remediation PR.
#[derive(Debug)]
pub struct FileChange {
    pub path: String,
    /// File content. `None` means delete.
    pub content: Option<String>,
    pub message: String,
}

impl Clone for FileChange {
    fn clone(&self) -> (res: Self)
        ensures
            res == *self,
    {
        FileChange {
            path: self.path.clone(),
            content: clone_opt_string(&self.content),
            message: self.message.clone(),
        }
    }
}

/// Policy violation severity level; `Error` is the default.
#[derive(Debug, Clone, Copy, PartialEq, Eq, Structural)]
pub enum Severity {
    Info,
    Warning,
    Error,
}

/// `s` is as severe as `t` or more, in the order info < warning < error.
pub open spec fn at_or_above(s: Severity, t: Severity) -> bool {
    match (s, t) {
        (_, Severity::Info) => true,
        (Severity::Warning, Severity::Warning) => true,
        (Severity::Error, _) => true,
        _ => false,
    }
}

/// Severity levels are strictly ordered info < warning < error: a level's rank reaches
/// another's exactly when it is that level or a more severe one, and two levels share a rank
/// only when they are the same level.
pub proof fn law_severity_order(s: Severity, t: Severity)
    ensures
        (s.spec_rank() >= t.spec_rank()) == at_or_above(s, t),
        (s.spec_rank() == t.spec_rank()) == (s == t),
{
}

impl Severity {
    /// Position of the level in the order `Info < Warning < Error`.
    pub open spec fn spec_rank(self) -> u8 {
        match self {
            Severity::Info => 0,
            Severity::Warning => 1,
            Severity::Error => 2,
        }
    }

    /// Position of the level in the order `Info < Warning < Error`.
    pub fn rank(self) -> (r: u8)
        ensures
            r == self.spec_rank(),
    {
        match self {
            Severity::Info => 0,
            Severity::Warning => 1,
            Severity::Error => 2,
        }
    }

    /// True when `self` is at least as severe as `other`.
    pub fn at_least(self, other: Severity) -> (b: bool)
        ensures
            b == (self.spec_rank() >= other.spec_rank()),
    {
        self.rank() >= other.rank()
    }

    /// The lowercase name of the level, as written in configs and reports.
    pub open spec fn spec_name(self) -> Seq<char> {
        match self {
            Severity::Info => "info"@,
            Severity::Warning => "warning"@,
            Severity::Error => "error"@,
        }
    }

    /// The lowercase name of the level, as written in configs and reports.
    pub fn name(self) -> (s: &'static str)
        ensures
            s@ == self.spec_name(),
    {
        match self {
            Severity::Info => "info",
            Severity::Warning => "warning",
            Severity::Error => "error",
        }
    }
}

impl Default for Severity {
    fn default() -> (s: Self)
        ensures
            s == Severity::Error,
    {
        Severity::Error
    }
}

/// Repository-level settings (merge strategies, enabled features, etc.).
#[derive(Debug, Clone)]
pub struct RepoSettings {
    pub has_issues: bool,
    pub has_wiki: bool,
    pub has_projects: bool,
    pub allow_merge_commit: bool,
    pub allow_squash_merge: bool,
    pub allow_rebase_merge: bool,
    pub delete_branch_on_merge: bool,
    pub default_branch: String,
    pub allow_auto_merge: bool,
}

/// Partial update to repository-level settings. Only set fields are sent.
#[derive(Debug, PartialEq, Eq)]
pub struct RepoSettingsPatch {
    pub has_issues: Option<bool>,
    pub has_wiki: Option<bool>,
    pub has_projects: Option<bool>,
    pub allow_merge_commit: Option<bool>,
    pub allow_squash_merge: Option<bool>,
    pub allow_rebase_merge: Option<bool>,
    pub delete_branch_on_merge: Option<bool>,
    pub allow_auto_merge: Option<bool>,
    pub default_branch: Option<String>,
}

/// `later` when it is set, `earlier` otherwise.
pub open spec fn override_opt<T>(earlier: Option<T>, later: Option<T>) -> Option<T> {
    if later is Some { later } else { earlier }
}

impl RepoSettingsPatch {
    /// The patch that sets nothing.
    pub open spec fn spec_empty() -> RepoSettingsPatch {
        RepoSettingsPatch {
            has_issues: None,
            has_wiki: None,
            has_projects: None,
            allow_merge_commit: None,
            allow_squash_merge: None,
            allow_rebase_merge: None,
            delete_branch_on_merge: None,
            allow_auto_merge: None,
            default_branch: None,
        }
    }

    /// `self` with every field that `other` sets overridden by `other`.
    pub open spec fn overlaid(self, other: RepoSettingsPatch) -> RepoSettingsPatch {
        RepoSettingsPatch {
            has_issues: override_opt(self.has_issues, other.has_issues),
            has_wiki: override_opt(self.has_wiki, other.has_wiki),
            has_projects: override_opt(self.has_projects, other.has_projects),
            allow_merge_commit: override_opt(self.allow_merge_commit, other.allow_merge_commit),
            allow_squash_merge: override_opt(self.allow_squash_merge, other.allow_squash_merge),
            allow_rebase_merge: override_opt(self.allow_rebase_merge, other.allow_rebase_merge),
            delete_branch_on_merge: override_opt(
                self.delete_branch_on_merge,
                other.delete_branch_on_merge,
            ),
            allow_auto_merge: override_opt(self.allow_auto_merge, other.allow_auto_merge),
            default_branch: override_opt(self.default_branch, other.default_branch),
        }
    }

    /// Merge `other` into `self`. Fields set in `other` override `self`.
    pub fn merge(&mut self, other: RepoSettingsPatch)
        ensures
            *final(self) == old(self).overlaid(other),
    {
        if other.has_issues.is_some() {
            self.has_issues = other.has_issues;
        }
        if other.has_wiki.is_some() {
            self.has_wiki = other.has_wiki;
        }
        if other.has_projects.is_some() {
            self.has_projects = other.has_projects;
        }
        if other.allow_merge_commit.is_some() {
            self.allow_merge_commit = other.allow_merge_commit;
        }
        if other.allow_squash_merge.is_some() {
            self.allow_squash_merge = other.allow_squash_merge;
        }
        if other.allow_rebase_merge.is_some() {
            self.allow_rebase_merge = other.allow_rebase_merge;
        }
        if other.delete_branch_on_merge.is_some() {
            self.delete_branch_on_merge = other.delete_branch_on_merge;
        }
        if other.allow_auto_merge.is_some() {
            self.allow_auto_merge = other.allow_auto_merge;
        }
        if other.default_branch.is_some() {
            self.default_branch = other.default_branch;
        }
    }

    /// Returns true if no fields are set.
    pub fn is_empty(&self) -> (b: bool)
        ensures
            b == (*self == RepoSettingsPatch::spec_empty()),
    {
        self.has_issues.is_none() && self.has_wiki.is_none() && self.has_projects.is_none()
            && self.allow_merge_commit.is_none() && self.allow_squash_merge.is_none()
            && self.allow_rebase_merge.is_none() && self.delete_branch_on_merge.is_none()
            && self.allow_auto_merge.is_none() && self.default_branch.is_none()
    }
}

impl Default for RepoSettingsPatch {
    fn default() -> (p: Self)
        ensures
            p == RepoSettingsPatch::spec_empty(),
    {
        RepoSettingsPatch {
            has_issues: None,
            has_wiki: None,
            has_projects: None,
            allow_merge_commit: None,
            allow_squash_merge: None,
            allow_rebase_merge: None,
            delete_branch_on_merge: None,
            allow_auto_merge: None,
            default_branch: None,
        }
    }
}

impl Clone for RepoSettingsPatch {
    fn clone(&self) -> (res: Self)
        ensures
            res == *self,
    {
        RepoSettingsPatch {
            has_issues: self.has_issues,
            has_wiki: self.has_wiki,
            has_projects: self.has_projects,
            allow_merge_commit: self.allow_merge_commit,
            allow_squash_merge: self.allow_squash_merge,
            allow_rebase_merge: self.allow_rebase_merge,
            delete_branch_on_merge: self.delete_branch_on_merge,
            allow_auto_merge: self.allow_auto_merge,
            default_branch: clone_opt_string(&self.default_branch),
        }
    }
}

/// Merging a patch that sets nothing changes nothing, on either side.
pub proof fn law_repo_settings_merge_identity(p: RepoSettingsPatch)
    ensures
        p.overlaid(RepoSettingsPatch::spec_empty()) == p,
        RepoSettingsPatch::spec_empty().overlaid(p) == p,
{
}

/// Merging is associative: folding patches left to right gives the same result however grouped.
pub proof fn law_repo_settings_merge_assoc(a: RepoSettingsPatch, b: RepoSettingsPatch, c: RepoSettingsPatch)
    ensures
        a.overlaid(b).overlaid(c) == a.overlaid(b.overlaid(c)),
{
}

/// A later patch wins: merging the same patch twice is the same as merging it once.
pub proof fn law_repo_settings_merge_idempotent(a: RepoSettingsPatch, b: RepoSettingsPatch)
    ensures
        a.overlaid(b).overlaid(b) == a.overlaid(b),
{
}

/// A merged patch is empty exactly when both inputs are empty.
pub proof fn law_repo_settings_merge_empty(a: RepoSettingsPatch, b: RepoSettingsPatch)
    ensures
        (a.overlaid(b) == RepoSettingsPatch::spec_empty()) <==> (a == RepoSettingsPatch::spec_empty()
            && b == RepoSettingsPatch::spec_empty()),
{
}

/// Required status checks for a protected branch.
#[derive(Debug, PartialEq, Eq)]
pub struct RequiredStatusChecks {
    pub strict: bool,
    pub contexts: Vec<String>,
}

impl RequiredStatusChecks {
    /// The two settings are equal field by field.
    pub open spec fn same(self, other: RequiredStatusChecks) -> bool {
        self.strict == other.strict && self.contexts.deep_view() == other.contexts.deep_view()
    }

    /// Field-by-field equality.
    pub fn equals(&self, other: &RequiredStatusChecks) -> (b: bool)
        ensures
            b == self.same(*other),
    {
        self.strict == other.strict && strings_equal(&self.contexts, &other.contexts)
    }
}

impl Clone for RequiredStatusChecks {
    fn clone(&self) -> (res: Self)
        ensures
            res.strict == self.strict,
            res.contexts@ == self.contexts@,
    {
        let contexts = self.contexts.clone();
        proof { assert(contexts@ =~= self.contexts@); }
        RequiredStatusChecks { strict: self.strict, contexts }
    }
}

/// Element-wise equality of two string lists.
pub fn strings_equal(a: &Vec<String>, b: &Vec<String>) -> (eq: bool)
    ensures
        eq == (a.deep_view() == b.deep_view()),
{
    if a.len() != b.len() {
        proof { assert(a.deep_view().len() != b.deep_view().len()); }
        return false;
    }
    for i in 0..a.len()
        invariant
            a@.len() == b@.len(),
            forall|j: int| 0 <= j < i ==> a@[j]@ == b@[j]@,
    {
        if !(a[i] == b[i]) {
            proof { assert(a.deep_view()[i as int] != b.deep_view()[i as int]); }
            return false;
        }
    }
    proof { assert(a.deep_view() =~= b.deep_view()); }
    true
}

/// Required pull-request review settings for a protected branch.
#[derive(Debug, Clone, Copy, PartialEq, Eq, Structural)]
pub struct RequiredPullRequestReviews {
    pub required_approving_review_count: u32,
    pub dismiss_stale_reviews: bool,
    pub require_code_owner_reviews: bool,
}

/// Branch protection settings for a single branch.
#[derive(Debug, Clone)]
pub struct BranchProtection {
    pub required_status_checks: Option<RequiredStatusChecks>,
    pub required_pull_request_reviews: Option<RequiredPullRequestReviews>,
    pub enforce_admins: bool,
    pub required_linear_history: bool,
    pub allow_force_pushes: bool,
    pub allow_deletions: bool,
}

/// Partial update to branch protection. Only set fields are sent.
#[derive(Debug, PartialEq, Eq)]
pub struct BranchProtectionPatch {
    pub required_status_checks: Option<RequiredStatusChecks>,
    pub required_pull_request_reviews: Option<RequiredPullRequestReviews>,
    pub enforce_admins: Option<bool>,
    pub required_linear_history: Option<bool>,
    pub allow_force_pushes: Option<bool>,
    pub allow_deletions: Option<bool>,
}

/// The abstract content of a [`BranchProtectionPatch`]: status checks as `(strict, contexts)`.
pub struct BranchProtectionPatchView {
    pub required_status_checks: Option<(bool, Seq<String>)>,
    pub required_pull_request_reviews: Option<RequiredPullRequestReviews>,
    pub enforce_admins: Option<bool>,
    pub required_linear_history: Option<bool>,
    pub allow_force_pushes: Option<bool>,
    pub allow_deletions: Option<bool>,
}

impl BranchProtectionPatchView {
    /// The patch that sets nothing.
    pub open spec fn empty() -> BranchProtectionPatchView {
        BranchProtectionPatchView {
            required_status_checks: None,
            required_pull_request_reviews: None,
            enforce_admins: None,
            required_linear_history: None,
            allow_force_pushes: None,
            allow_deletions: None,
        }
    }

    /// `self` with every field that `other` sets overridden by `other`.
    pub open spec fn overlaid(self, other: BranchProtectionPatchView) -> BranchProtectionPatchView {
        BranchProtectionPatchView {
            required_status_checks: override_opt(
                self.required_status_checks,
                other.required_status_checks,
            ),
            required_pull_request_reviews: override_opt(
                self.required_pull_request_reviews,
                other.required_pull_request_reviews,
            ),
            enforce_admins: override_opt(self.enforce_admins, other.enforce_admins),
            required_linear_history: override_opt(
                self.required_linear_history,
                other.required_linear_history,
            ),
            allow_force_pushes: override_opt(self.allow_force_pushes, other.allow_force_pushes),
            allow_deletions: override_opt(self.allow_deletions, other.allow_deletions),
        }
    }
}

/// The `(strict, contexts)` content of optional status checks.
pub open spec fn status_checks_view(c: Option<RequiredStatusChecks>) -> Option<(bool, Seq<String>)> {
    match c {
        Some(c) => Some((c.strict, c.contexts@)),
        None => None,
    }
}

impl View for BranchProtectionPatch {
    type V = BranchProtectionPatchView;

    open spec fn view(&self) -> BranchProtectionPatchView {
        BranchProtectionPatchView {
            required_status_checks: status_checks_view(self.required_status_checks),
            required_pull_request_reviews: self.required_pull_request_reviews,
            enforce_admins: self.enforce_admins,
            required_linear_history: self.required_linear_history,
            allow_force_pushes: self.allow_force_pushes,
            allow_deletions: self.allow_deletions,
        }
    }
}

impl BranchProtectionPatch {
    /// Merge `other` into `self`. Fields set in `other` override `self`.
    pub fn merge(&mut self, other: BranchProtectionPatch)
        ensures
            final(self)@ == old(self)@.overlaid(other@),
    {
        if other.required_status_checks.is_some() {
            self.required_status_checks = other.required_status_checks;
        }
        if other.required_pull_request_reviews.is_some() {
            self.required_pull_request_reviews = other.required_pull_request_reviews;
        }
        if other.enforce_admins.is_some() {
            self.enforce_admins = other.enforce_admins;
        }
        if other.required_linear_history.is_some() {
            self.required_linear_history = other.required_linear_history;
        }
        if other.allow_force_pushes.is_some() {
            self.allow_force_pushes = other.allow_force_pushes;
        }
        if other.allow_deletions.is_some() {
            self.allow_deletions = other.allow_deletions;
        }
    }

    /// Returns true if no fields are set.
    pub fn is_empty(&self) -> (b: bool)
        ensures
            b == (self@ == BranchProtectionPatchView::empty()),
    {
        self.required_status_checks.is_none() && self.required_pull_request_reviews.is_none()
            && self.enforce_admins.is_none() && self.required_linear_history.is_none()
            && self.allow_force_pushes.is_none() && self.allow_deletions.is_none()
    }
}

impl Default for BranchProtectionPatch {
    fn default() -> (p: Self)
        ensures
            p@ == BranchProtectionPatchView::empty(),
    {
        BranchProtectionPatch {
            required_status_checks: None,
            required_pull_request_reviews: None,
            enforce_admins: None,
            required_linear_history: None,
            allow_force_pushes: None,
            allow_deletions: None,
        }
    }
}

impl Clone for BranchProtectionPatch {
    fn clone(&self) -> (res: Self)
        ensures
            res@ == self@,
    {
        let required_status_checks = match &self.required_status_checks {
            Some(c) => Some(c.clone()),
            None => None,
        };
        BranchProtectionPatch {
            required_status_checks,
            required_pull_request_reviews: self.required_pull_request_reviews,
            enforce_admins: self.enforce_admins,
            required_linear_history: self.required_linear_history,
            allow_force_pushes: self.allow_force_pushes,
            allow_deletions: self.allow_deletions,
        }
    }
}

/// Merging a patch that sets nothing changes nothing, on either side.
pub proof fn law_branch_protection_merge_identity(p: BranchProtectionPatchView)
    ensures
        p.overlaid(BranchProtectionPatchView::empty()) == p,
        BranchProtectionPatchView::empty().overlaid(p) == p,
{
}

/// Merging is associative: folding patches left to right gives the same result however grouped.
pub proof fn law_branch_protection_merge_assoc(
    a: BranchProtectionPatchView,
    b: BranchProtectionPatchView,
    c: BranchProtectionPatchView,
)
    ensures
        a.overlaid(b).overlaid(c) == a.overlaid(b.overlaid(c)),
{
}

/// A merged patch is empty exactly when both inputs are empty.
pub proof fn law_branch_protection_merge_empty(a: BranchProtectionPatchView, b: BranchProtectionPatchView)
    ensures
        (a.overlaid(b) == BranchProtectionPatchView::empty()) <==> (a
            == BranchProtectionPatchView::empty() && b == BranchProtectionPatchView::empty()),
{
}

/// The autolink a policy wants on a repository: references starting with
/// `key_prefix` link to `url_template` (where `<num>` stands for the reference number).
#[derive(Debug)]
pub struct AutolinkSpec {
    pub key_prefix: String,
    pub url_template: String,
    pub is_alphanumeric: bool,
}

impl Clone for AutolinkSpec {
    fn clone(&self) -> (res: Self)
        ensures
            res == *self,
    {
        AutolinkSpec {
            key_prefix: self.key_prefix.clone(),
            url_template: self.url_template.clone(),
            is_alphanumeric: self.is_alphanumeric,
        }
    }
}

/// An autolink reference as configured on a repository.
#[derive(Debug, Clone)]
pub struct Autolink {
    pub id: u64,
    pub key_prefix: String,
    pub url_template: String,
    pub is_alphanumeric: bool,
}

impl Autolink {
    /// The configured link is exactly the wanted one.
    pub open spec fn spec_matches(self, spec: AutolinkSpec) -> bool {
        self.key_prefix@ == spec.key_prefix@ && self.url_template@ == spec.url_template@
            && self.is_alphanumeric == spec.is_alphanumeric
    }

    /// The configured link is exactly the wanted one.
    pub fn matches(&self, spec: &AutolinkSpec) -> (b: bool)
        ensures
            b == self.spec_matches(*spec),
    {
        self.key_prefix == spec.key_prefix && self.url_template == spec.url_template
            && self.is_alphanumeric == spec.is_alphanumeric
    }
}

/// What `str::to_lowercase` gives for `s` (full Unicode case mapping).
pub uninterp spec fn lowercase(s: Seq<char>) -> Seq<char>;

/// `str::to_lowercase`. Trusted: the result is std's lowercase mapping of `s`.
#[verifier::external_body]
fn to_lowercase(s: &str) -> (r: String)
    ensures
        r@ == lowercase(s@),
{
    s.to_lowercase()
}

/// Read a severity level by name, in any letter case: `info`, `warning` or `error`;
/// anything else is refused with a message naming the lowercased text.
pub fn parse_severity(s: &str) -> (r: Result<Severity, String>)
    ensures
        match r {
            Ok(level) => lowercase(s@) == level.spec_name(),
            Err(m) => lowercase(s@) != "info"@ && lowercase(s@) != "warning"@ && lowercase(s@) != "error"@
                && m@ == "unknown severity: "@ + lowercase(s@),
        },
{
    let lower = to_lowercase(s);
    if str_eq(lower.as_str(), "info") {
        Ok(Severity::Info)
    } else if str_eq(lower.as_str(), "warning") {
        Ok(Severity::Warning)
    } else if str_eq(lower.as_str(), "error") {
        Ok(Severity::Error)
    } else {
        let mut m = "unknown severity: ".to_owned();
        m.append(lower.as_str());
        Err(m)
    }
}

impl core::str::FromStr for Severity {
    type Err = String;

    fn from_str(s: &str) -> (r: Result<Severity, String>)
        ensures
            match r {
                Ok(level) => lowercase(s@) == level.spec_name(),
                Err(m) => lowercase(s@) != "info"@ && lowercase(s@) != "warning"@ && lowercase(s@) != "error"@
                    && m@ == "unknown severity: "@ + lowercase(s@),
            },
    {
        parse_severity(s)
    }
}

} // verus!
