//! Rule outcomes and the remediations that fix a violation.

use vstd::prelude::*;

use crate::error::CoreError;
use crate::model::{AutolinkSpec, BranchProtectionPatch, BranchProtectionPatchView, FileChange, RepoSettingsPatch};
use crate::policy_source::opt_view;

verus! {

/// The outcome of evaluating a single rule against a repository.
#[derive(Debug)]
pub enum RuleResult {
    /// The repository satisfies the rule.
    Pass { detail: String },
    /// The repository violates the rule, with an optional remediation
    /// attributed to the rule type that produced it.
    Fail { detail: String, remediation: Option<AttributedRemediation> },
    /// The rule was not applicable to this repository.
    Skip { reason: String },
    /// An error occurred during evaluation.
    Error { message: String },
}

/// A remediation that can fix a rule violation.
#[derive(Debug)]
pub enum Remediation {
    FileChanges { description: String, changes: Vec<FileChange> },
    RepoSettings { description: String, patch: RepoSettingsPatch },
    BranchProtection { description: String, branch: String, patch: BranchProtectionPatch },
    /// Ensure a single autolink reference exists on the repo, keyed by `key_prefix`.
    Autolink { description: String, spec: AutolinkSpec },
}

impl Remediation {
    /// The human-readable description carried by every variant.
    pub open spec fn spec_description(self) -> String {
        match self {
            Remediation::FileChanges { description, .. } => description,
            Remediation::RepoSettings { description, .. } => description,
            Remediation::BranchProtection { description, .. } => description,
            Remediation::Autolink { description, .. } => description,
        }
    }

    /// The human-readable description carried by every variant.
    pub fn description(&self) -> (d: &str)
        ensures
            d@ == self.spec_description()@,
    {
        match self {
            Remediation::FileChanges { description, .. } => description.as_str(),
            Remediation::RepoSettings { description, .. } => description.as_str(),
            Remediation::BranchProtection { description, .. } => description.as_str(),
            Remediation::Autolink { description, .. } => description.as_str(),
        }
    }

    /// A file-changes remediation with at least one change: the kind that opens a PR.
    pub open spec fn opens_pr(self) -> bool {
        self matches Remediation::FileChanges { changes, .. } && changes@.len() > 0
    }

    /// A file-changes remediation with at least one change: the kind that opens a PR.
    pub fn has_file_changes(&self) -> (b: bool)
        ensures
            b == self.opens_pr(),
    {
        match self {
            Remediation::FileChanges { changes, .. } => changes.len() > 0,
            _ => false,
        }
    }
}

/// A [`Remediation`] paired with the type of rule that produced it.
#[derive(Debug)]
pub struct AttributedRemediation {
    pub rule_type: String,
    pub remediation: Remediation,
}

impl AttributedRemediation {
    /// Pair a remediation with the rule type that produced it.
    pub fn new(rule_type: &str, remediation: Remediation) -> (a: Self)
        ensures
            a.rule_type@ == rule_type@,
            a.remediation == remediation,
    {
        AttributedRemediation { rule_type: rule_type.to_owned(), remediation }
    }
}

/// The content of a [`Remediation`], with lists and patches taken by their views.
pub enum RemediationView {
    FileChanges { description: String, changes: Seq<FileChange> },
    RepoSettings { description: String, patch: RepoSettingsPatch },
    BranchProtection { description: String, branch: String, patch: BranchProtectionPatchView },
    Autolink { description: String, spec: AutolinkSpec },
}

impl View for Remediation {
    type V = RemediationView;

    open spec fn view(&self) -> RemediationView {
        match *self {
            Remediation::FileChanges { description, changes } => RemediationView::FileChanges {
                description,
                changes: changes@,
            },
            Remediation::RepoSettings { description, patch } => RemediationView::RepoSettings {
                description,
                patch,
            },
            Remediation::BranchProtection { description, branch, patch } => RemediationView::BranchProtection {
                description,
                branch,
                patch: patch@,
            },
            Remediation::Autolink { description, spec } => RemediationView::Autolink { description, spec },
        }
    }
}

impl View for AttributedRemediation {
    type V = (String, RemediationView);

    open spec fn view(&self) -> (String, RemediationView) {
        (self.rule_type, self.remediation@)
    }
}

/// Copy a list of file changes, keeping every change.
pub fn clone_changes(v: &Vec<FileChange>) -> (res: Vec<FileChange>)
    ensures
        res@ == v@,
{
    let mut res: Vec<FileChange> = Vec::new();
    for i in 0..v.len()
        invariant
            res@ == v@.take(i as int),
    {
        res.push(v[i].clone());
        proof { assert(v@.take(i + 1) =~= v@.take(i as int).push(v@[i as int])); }
    }
    proof { assert(v@.take(v@.len() as int) =~= v@); }
    res
}

impl Clone for Remediation {
    fn clone(&self) -> (res: Self)
        ensures
            res@ == self@,
    {
        match self {
            Remediation::FileChanges { description, changes } => Remediation::FileChanges {
                description: description.clone(),
                changes: clone_changes(changes),
            },
            Remediation::RepoSettings { description, patch } => Remediation::RepoSettings {
                description: description.clone(),
                patch: patch.clone(),
            },
            Remediation::BranchProtection { description, branch, patch } => Remediation::BranchProtection {
                description: description.clone(),
                branch: branch.clone(),
                patch: patch.clone(),
            },
            Remediation::Autolink { description, spec } => Remediation::Autolink {
                description: description.clone(),
                spec: spec.clone(),
            },
        }
    }
}

impl Clone for AttributedRemediation {
    fn clone(&self) -> (res: Self)
        ensures
            res@ == self@,
    {
        AttributedRemediation { rule_type: self.rule_type.clone(), remediation: self.remediation.clone() }
    }
}


/// A remediation with its text taken by the characters it holds.
pub enum FixView {
    /// File writes (`Some` content) and deletions (`None`), each as `(path, content, message)`.
    Files { description: Seq<char>, changes: Seq<(Seq<char>, Option<Seq<char>>, Seq<char>)> },
    Settings { description: Seq<char>, patch: RepoSettingsPatch },
    Protection { description: Seq<char>, branch: Seq<char>, patch: BranchProtectionPatchView },
    Autolink { description: Seq<char>, key_prefix: Seq<char>, url_template: Seq<char>, is_alphanumeric: bool },
}

/// A file change as `(path, content, message)`.
pub open spec fn change_view(c: FileChange) -> (Seq<char>, Option<Seq<char>>, Seq<char>) {
    (c.path@, opt_view(c.content), c.message@)
}

/// The [`FixView`] of a remediation.
pub open spec fn fix_of(r: Remediation) -> FixView {
    match r {
        Remediation::FileChanges { description, changes } => FixView::Files {
            description: description@,
            changes: changes@.map_values(|c: FileChange| change_view(c)),
        },
        Remediation::RepoSettings { description, patch } => FixView::Settings { description: description@, patch },
        Remediation::BranchProtection { description, branch, patch } => FixView::Protection {
            description: description@,
            branch: branch@,
            patch: patch@,
        },
        Remediation::Autolink { description, spec } => FixView::Autolink {
            description: description@,
            key_prefix: spec.key_prefix@,
            url_template: spec.url_template@,
            is_alphanumeric: spec.is_alphanumeric,
        },
    }
}

/// What a rule concludes about one repository, with its text as character sequences.
pub enum Judgement {
    Pass(Seq<char>),
    /// A failure, with the remediation on offer, if any.
    Fail(Seq<char>, Option<FixView>),
    Skip(Seq<char>),
    Error(Seq<char>),
}

/// `r` is the judgement `v`, any remediation attributed to `rule_type`.
pub open spec fn yields(r: RuleResult, rule_type: Seq<char>, v: Judgement) -> bool {
    match v {
        Judgement::Pass(d) => r matches RuleResult::Pass { detail } && detail@ == d,
        Judgement::Fail(d, fix) => r matches RuleResult::Fail { detail, remediation } && detail@ == d
            && match fix {
            None => remediation is None,
            Some(f) => remediation matches Some(a) && a.rule_type@ == rule_type && fix_of(a.remediation) == f,
        },
        Judgement::Skip(d) => r matches RuleResult::Skip { reason } && reason@ == d,
        Judgement::Error(d) => r matches RuleResult::Error { message } && message@ == d,
    }
}

/// The single-file remediation writing (or, with `None`, deleting) `path`.
pub open spec fn one_file_fix(description: Seq<char>, path: Seq<char>, content: Option<Seq<char>>, message: Seq<char>) -> FixView {
    FixView::Files { description, changes: seq![(path, content, message)] }
}

/// A file-changes remediation holding the one change `(path, content, message)`.
pub fn single_file_remediation(rule_type: &str, description: String, path: String, content: Option<String>, message: String) -> (a: AttributedRemediation)
    ensures
        a.rule_type@ == rule_type@,
        fix_of(a.remediation) == one_file_fix(description@, path@, opt_view(content), message@),
{
    let mut changes: Vec<FileChange> = Vec::new();
    let ghost d = description@;
    let ghost c = (path@, opt_view(content), message@);
    changes.push(FileChange { path, content, message });
    let a = AttributedRemediation::new(rule_type, Remediation::FileChanges { description, changes });
    proof {
        assert(changes@.map_values(|c: FileChange| change_view(c)) =~= seq![c]);
    }
    a
}

/// A compliance rule: a type tag and a description of what it checks.
pub trait Rule {
    /// Machine-readable rule type identifier (e.g. `"ensure_file"`).
    fn rule_type(&self) -> &str;

    /// Human-readable description of what this rule checks.
    fn description(&self) -> String;
}

/// `r` stands for `v`: `Ok` with the matching result for a pass, fail or skip, and for
/// `Judgement::Error` a `RuleEvaluation` failure holding the same message.
pub open spec fn delivers(r: Result<RuleResult, CoreError>, rule_type: Seq<char>, v: Judgement) -> bool {
    match r {
        Ok(res) => !(v is Error) && yields(res, rule_type, v),
        Err(e) => v matches Judgement::Error(m) && e matches CoreError::RuleEvaluation(msg) && msg@ == m,
    }
}

} // verus!
