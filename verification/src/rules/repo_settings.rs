//! `repo_settings`: repository-level settings match the policy; the differing ones make the patch.

use vstd::prelude::*;

use crate::config::RepoSettingsConfig;
use crate::model::{RepoSettings, RepoSettingsPatch};
use crate::rule::{yields, AttributedRemediation, FixView, Remediation, Rule, RuleResult, Judgement};
use crate::text::{bool_str, bool_text, concat3, join, join_strings, str_eq};

verus! {

/// Checks repository settings against the configured values.
pub struct RepoSettingsRule {
    config: RepoSettingsConfig,
}

/// The expected value when it is configured and differs from the actual one.
pub open spec fn differing(expected: Option<bool>, actual: bool) -> Option<bool> {
    match expected {
        Some(e) => if e != actual { Some(e) } else { None },
        None => None,
    }
}

/// The mismatch line for one boolean setting, when it differs.
pub open spec fn bool_mismatch(name: Seq<char>, expected: Option<bool>, actual: bool) -> Seq<Seq<char>> {
    match differing(expected, actual) {
        Some(e) => seq![name + ": actual="@ + bool_text(actual) + " expected="@ + bool_text(e)],
        None => Seq::empty(),
    }
}

/// The mismatch lines, in field order, between the configured and the actual settings.
pub open spec fn settings_mismatches(c: RepoSettingsConfig, a: RepoSettings) -> Seq<Seq<char>> {
    bool_mismatch("has_issues"@, c.has_issues, a.has_issues)
        + bool_mismatch("has_wiki"@, c.has_wiki, a.has_wiki)
        + bool_mismatch("has_projects"@, c.has_projects, a.has_projects)
        + bool_mismatch("allow_merge_commit"@, c.allow_merge_commit, a.allow_merge_commit)
        + bool_mismatch("allow_squash_merge"@, c.allow_squash_merge, a.allow_squash_merge)
        + bool_mismatch("allow_rebase_merge"@, c.allow_rebase_merge, a.allow_rebase_merge)
        + bool_mismatch("delete_branch_on_merge"@, c.delete_branch_on_merge, a.delete_branch_on_merge)
        + bool_mismatch("allow_auto_merge"@, c.allow_auto_merge, a.allow_auto_merge)
        + match c.default_branch {
        Some(e) => if e@ != a.default_branch@ {
            seq!["default_branch: actual="@ + a.default_branch@ + " expected="@ + e@]
        } else {
            Seq::empty()
        },
        None => Seq::empty(),
    }
}

/// The patch setting exactly the configured values that differ from the actual settings.
pub open spec fn settings_patch(c: RepoSettingsConfig, a: RepoSettings) -> RepoSettingsPatch {
    RepoSettingsPatch {
        has_issues: differing(c.has_issues, a.has_issues),
        has_wiki: differing(c.has_wiki, a.has_wiki),
        has_projects: differing(c.has_projects, a.has_projects),
        allow_merge_commit: differing(c.allow_merge_commit, a.allow_merge_commit),
        allow_squash_merge: differing(c.allow_squash_merge, a.allow_squash_merge),
        allow_rebase_merge: differing(c.allow_rebase_merge, a.allow_rebase_merge),
        delete_branch_on_merge: differing(c.delete_branch_on_merge, a.delete_branch_on_merge),
        allow_auto_merge: differing(c.allow_auto_merge, a.allow_auto_merge),
        default_branch: match c.default_branch {
            Some(e) => if e@ != a.default_branch@ { Some(e) } else { None },
            None => None,
        },
    }
}

/// The judgement of `repo_settings` for a config and the actual settings.
pub open spec fn repo_settings_judgement(c: RepoSettingsConfig, a: RepoSettings) -> Judgement {
    let m = settings_mismatches(c, a);
    if m.len() == 0 {
        Judgement::Pass("Repository settings match policy"@)
    } else {
        Judgement::Fail(
            "Settings differ: "@ + join(m, ", "@),
            Some(FixView::Settings { description: "Update repo settings: "@ + join(m, ", "@), patch: settings_patch(c, a) }),
        )
    }
}

fn check_bool(
    mismatches: &mut Vec<String>,
    name: &str,
    expected: Option<bool>,
    actual: bool,
) -> (d: Option<bool>)
    ensures
        final(mismatches).deep_view() == old(mismatches).deep_view() + bool_mismatch(name@, expected, actual),
        d == differing(expected, actual),
{
    match expected {
        Some(e) => {
            if e != actual {
                let mut line = concat3(name, ": actual=", bool_str(actual));
                line.append(" expected=");
                line.append(bool_str(e));
                let ghost before = mismatches.deep_view();
                mismatches.push(line);
                proof { assert(mismatches.deep_view() =~= before + bool_mismatch(name@, expected, actual)); }
                Some(e)
            } else {
                proof { assert(mismatches.deep_view() =~= mismatches.deep_view() + Seq::<Seq<char>>::empty()); }
                None
            }
        },
        None => {
            proof { assert(mismatches.deep_view() =~= mismatches.deep_view() + Seq::<Seq<char>>::empty()); }
            None
        },
    }
}

impl RepoSettingsRule {
    pub fn new(config: RepoSettingsConfig) -> (r: Self)
        ensures
            r.spec_config() == config,
    {
        RepoSettingsRule { config }
    }

    /// The configuration this rule checks.
    pub closed spec fn spec_config(&self) -> RepoSettingsConfig {
        self.config
    }

    /// The mismatch lines and the patch that would bring `actual` in line with the policy.
    pub fn diff(&self, actual: &RepoSettings) -> (r: (Vec<String>, RepoSettingsPatch))
        ensures
            r.0.deep_view() == settings_mismatches(self.spec_config(), *actual),
            r.1 == settings_patch(self.spec_config(), *actual),
    {
        let c = &self.config;
        let mut m: Vec<String> = Vec::new();
        proof { assert(m.deep_view() =~= Seq::<Seq<char>>::empty()); }
        let has_issues = check_bool(&mut m, "has_issues", c.has_issues, actual.has_issues);
        let has_wiki = check_bool(&mut m, "has_wiki", c.has_wiki, actual.has_wiki);
        let has_projects = check_bool(&mut m, "has_projects", c.has_projects, actual.has_projects);
        let allow_merge_commit = check_bool(&mut m, "allow_merge_commit", c.allow_merge_commit, actual.allow_merge_commit);
        let allow_squash_merge = check_bool(&mut m, "allow_squash_merge", c.allow_squash_merge, actual.allow_squash_merge);
        let allow_rebase_merge = check_bool(&mut m, "allow_rebase_merge", c.allow_rebase_merge, actual.allow_rebase_merge);
        let delete_branch_on_merge = check_bool(&mut m, "delete_branch_on_merge", c.delete_branch_on_merge, actual.delete_branch_on_merge);
        let allow_auto_merge = check_bool(&mut m, "allow_auto_merge", c.allow_auto_merge, actual.allow_auto_merge);
        let ghost bools = m.deep_view();
        let default_branch = match &c.default_branch {
            Some(e) => {
                if !str_eq(actual.default_branch.as_str(), e.as_str()) {
                    let mut line = concat3("default_branch: actual=", actual.default_branch.as_str(), " expected=");
                    line.append(e.as_str());
                    m.push(line);
                    Some(e.clone())
                } else {
                    None
                }
            },
            None => None,
        };
        proof {
            assert(m.deep_view() =~= settings_mismatches(self.spec_config(), *actual));
        }
        let patch = RepoSettingsPatch {
            has_issues,
            has_wiki,
            has_projects,
            allow_merge_commit,
            allow_squash_merge,
            allow_rebase_merge,
            delete_branch_on_merge,
            allow_auto_merge,
            default_branch,
        };
        (m, patch)
    }

    /// Judge the repository from its actual settings.
    pub fn judge(&self, actual: &RepoSettings) -> (r: RuleResult)
        ensures
            yields(r, "repo_settings"@, repo_settings_judgement(self.spec_config(), *actual)),
    {
        let (m, patch) = self.diff(actual);
        if m.len() == 0 {
            proof { reveal_strlit(""); }
            return RuleResult::Pass { detail: concat3("Repository settings match policy", "", "") };
        }
        let joined = join_strings(&m, ", ");
        proof { reveal_strlit(""); }
        let detail = concat3("Settings differ: ", joined.as_str(), "");
        let description = concat3("Update repo settings: ", joined.as_str(), "");
        let fix = AttributedRemediation::new("repo_settings", Remediation::RepoSettings { description, patch });
        RuleResult::Fail { detail, remediation: Some(fix) }
    }
}


/// The settings after a patch: every field the patch sets takes the patch's value.
pub open spec fn patched_settings(a: RepoSettings, p: RepoSettingsPatch) -> RepoSettings {
    RepoSettings {
        has_issues: match p.has_issues { Some(v) => v, None => a.has_issues },
        has_wiki: match p.has_wiki { Some(v) => v, None => a.has_wiki },
        has_projects: match p.has_projects { Some(v) => v, None => a.has_projects },
        allow_merge_commit: match p.allow_merge_commit { Some(v) => v, None => a.allow_merge_commit },
        allow_squash_merge: match p.allow_squash_merge { Some(v) => v, None => a.allow_squash_merge },
        allow_rebase_merge: match p.allow_rebase_merge { Some(v) => v, None => a.allow_rebase_merge },
        delete_branch_on_merge: match p.delete_branch_on_merge { Some(v) => v, None => a.delete_branch_on_merge },
        default_branch: match p.default_branch { Some(v) => v, None => a.default_branch },
        allow_auto_merge: match p.allow_auto_merge { Some(v) => v, None => a.allow_auto_merge },
    }
}

pub(crate) proof fn lemma_bool_mismatch(name: Seq<char>, e: Option<bool>, a: bool)
    ensures
        (bool_mismatch(name, e, a).len() == 0) == (differing(e, a) is None),
        bool_mismatch(name, e, match differing(e, a) { Some(v) => v, None => a }).len() == 0,
{
}

/// The remediation fixes the violation: once the patch the rule offers is applied, the
/// settings match the policy. The patch is empty exactly when nothing differs.
pub proof fn law_settings_patch_fixes(c: RepoSettingsConfig, a: RepoSettings)
    ensures
        settings_mismatches(c, patched_settings(a, settings_patch(c, a))).len() == 0,
        (settings_mismatches(c, a).len() == 0) == (settings_patch(c, a) == RepoSettingsPatch::spec_empty()),
{
    lemma_bool_mismatch("has_issues"@, c.has_issues, a.has_issues);
    lemma_bool_mismatch("has_wiki"@, c.has_wiki, a.has_wiki);
    lemma_bool_mismatch("has_projects"@, c.has_projects, a.has_projects);
    lemma_bool_mismatch("allow_merge_commit"@, c.allow_merge_commit, a.allow_merge_commit);
    lemma_bool_mismatch("allow_squash_merge"@, c.allow_squash_merge, a.allow_squash_merge);
    lemma_bool_mismatch("allow_rebase_merge"@, c.allow_rebase_merge, a.allow_rebase_merge);
    lemma_bool_mismatch("delete_branch_on_merge"@, c.delete_branch_on_merge, a.delete_branch_on_merge);
    lemma_bool_mismatch("allow_auto_merge"@, c.allow_auto_merge, a.allow_auto_merge);
    let fixed = patched_settings(a, settings_patch(c, a));
    assert(fixed.has_issues == match differing(c.has_issues, a.has_issues) { Some(v) => v, None => a.has_issues });
    assert(fixed.default_branch@ == match c.default_branch { Some(e) => e@, None => a.default_branch@ });
}

/// A configured value holds of the actual one: nothing is configured, or it is that value.
pub open spec fn holds(expected: Option<bool>, actual: bool) -> bool {
    expected matches Some(e) ==> actual == e
}

/// What a patch does for one setting: it sets the configured value exactly when the actual
/// value differs from it, and leaves the setting alone otherwise.
pub open spec fn patches_to(expected: Option<bool>, actual: bool, patched: Option<bool>) -> bool {
    if holds(expected, actual) { patched is None } else { patched == expected }
}

/// Every configured setting has its configured value.
pub open spec fn settings_conform(c: RepoSettingsConfig, a: RepoSettings) -> bool {
    &&& holds(c.has_issues, a.has_issues)
    &&& holds(c.has_wiki, a.has_wiki)
    &&& holds(c.has_projects, a.has_projects)
    &&& holds(c.allow_merge_commit, a.allow_merge_commit)
    &&& holds(c.allow_squash_merge, a.allow_squash_merge)
    &&& holds(c.allow_rebase_merge, a.allow_rebase_merge)
    &&& holds(c.delete_branch_on_merge, a.delete_branch_on_merge)
    &&& holds(c.allow_auto_merge, a.allow_auto_merge)
    &&& (c.default_branch matches Some(e) ==> a.default_branch@ == e@)
}

/// The settings rule judges field by field: it passes exactly when every configured setting
/// has its configured value; otherwise it fails and offers a patch that sets each configured
/// setting whose actual value differs, to the configured value, and touches no other setting.
pub proof fn law_settings_judged_field_by_field(c: RepoSettingsConfig, a: RepoSettings)
    ensures
        (repo_settings_judgement(c, a) is Pass) == settings_conform(c, a),
        !settings_conform(c, a) ==> (repo_settings_judgement(c, a) matches Judgement::Fail(_, Some(FixView::Settings { patch, .. }))
            && patch == settings_patch(c, a)),
        patches_to(c.has_issues, a.has_issues, settings_patch(c, a).has_issues),
        patches_to(c.has_wiki, a.has_wiki, settings_patch(c, a).has_wiki),
        patches_to(c.has_projects, a.has_projects, settings_patch(c, a).has_projects),
        patches_to(c.allow_merge_commit, a.allow_merge_commit, settings_patch(c, a).allow_merge_commit),
        patches_to(c.allow_squash_merge, a.allow_squash_merge, settings_patch(c, a).allow_squash_merge),
        patches_to(c.allow_rebase_merge, a.allow_rebase_merge, settings_patch(c, a).allow_rebase_merge),
        patches_to(c.delete_branch_on_merge, a.delete_branch_on_merge, settings_patch(c, a).delete_branch_on_merge),
        patches_to(c.allow_auto_merge, a.allow_auto_merge, settings_patch(c, a).allow_auto_merge),
        match c.default_branch {
            Some(e) => if a.default_branch@ == e@ {
                settings_patch(c, a).default_branch is None
            } else {
                settings_patch(c, a).default_branch == Some(e)
            },
            None => settings_patch(c, a).default_branch is None,
        },
{
    lemma_bool_mismatch("has_issues"@, c.has_issues, a.has_issues);
    lemma_bool_mismatch("has_wiki"@, c.has_wiki, a.has_wiki);
    lemma_bool_mismatch("has_projects"@, c.has_projects, a.has_projects);
    lemma_bool_mismatch("allow_merge_commit"@, c.allow_merge_commit, a.allow_merge_commit);
    lemma_bool_mismatch("allow_squash_merge"@, c.allow_squash_merge, a.allow_squash_merge);
    lemma_bool_mismatch("allow_rebase_merge"@, c.allow_rebase_merge, a.allow_rebase_merge);
    lemma_bool_mismatch("delete_branch_on_merge"@, c.delete_branch_on_merge, a.delete_branch_on_merge);
    lemma_bool_mismatch("allow_auto_merge"@, c.allow_auto_merge, a.allow_auto_merge);
}

impl Rule for RepoSettingsRule {
    fn rule_type(&self) -> (s: &str)
        ensures
            s@ == "repo_settings"@,
    {
        "repo_settings"
    }

    fn description(&self) -> (s: String)
        ensures
            s@ == "Ensure repository settings match policy"@,
    {
        "Ensure repository settings match policy".to_owned()
    }
}

} // verus!
