//! `branch_protection`: a branch's protection matches the policy; the differing parts make the patch.

use vstd::prelude::*;

use crate::config::{BranchProtectionConfig, RequiredPullRequestReviewsConfig, RequiredStatusChecksConfig};
use crate::model::{
    BranchProtection, BranchProtectionPatch, BranchProtectionPatchView, RequiredPullRequestReviews,
    RequiredStatusChecks,
};
use crate::rule::{yields, AttributedRemediation, FixView, Remediation, Rule, RuleResult, Judgement};
use crate::rules::repo_settings::{bool_mismatch, differing, holds, lemma_bool_mismatch, patches_to};
use crate::text::{bool_str, bool_text, concat3, dec, debug_str, join, join_strings, str_debug, usize_to_string};

verus! {

/// Checks a branch's protection against the configured values.
pub struct BranchProtectionRule {
    config: BranchProtectionConfig,
}

/// The model form of configured review requirements.
pub open spec fn reviews_of(c: RequiredPullRequestReviewsConfig) -> RequiredPullRequestReviews {
    RequiredPullRequestReviews {
        required_approving_review_count: c.required_approving_review_count,
        dismiss_stale_reviews: c.dismiss_stale_reviews,
        require_code_owner_reviews: c.require_code_owner_reviews,
    }
}

/// The actual protection already requires exactly the configured status checks.
pub open spec fn checks_in_place(a: Option<BranchProtection>, e: RequiredStatusChecksConfig) -> bool {
    a matches Some(p) && p.required_status_checks matches Some(rc) && rc.strict == e.strict
        && rc.contexts.deep_view() == e.contexts.deep_view()
}

/// The actual protection already requires exactly the configured reviews.
pub open spec fn reviews_in_place(a: Option<BranchProtection>, e: RequiredPullRequestReviewsConfig) -> bool {
    a matches Some(p) && p.required_pull_request_reviews == Some(reviews_of(e))
}

/// A boolean protection flag, `false` when the branch is unprotected.
pub open spec fn flag(a: Option<BranchProtection>, which: int) -> bool {
    match a {
        Some(p) => if which == 0 {
            p.enforce_admins
        } else if which == 1 {
            p.required_linear_history
        } else if which == 2 {
            p.allow_force_pushes
        } else {
            p.allow_deletions
        },
        None => false,
    }
}

/// `Debug` of a list of strings: `["a", "b"]`.
pub open spec fn strings_debug(v: Seq<Seq<char>>) -> Seq<char> {
    "["@ + join(v.map_values(|s: Seq<char>| str_debug(s)), ", "@) + "]"@
}

/// `Debug` of required status checks.
pub open spec fn checks_debug(strict: bool, contexts: Seq<Seq<char>>) -> Seq<char> {
    "RequiredStatusChecks { strict: "@ + bool_text(strict) + ", contexts: "@ + strings_debug(contexts) + " }"@
}

/// `Debug` of required reviews.
pub open spec fn reviews_debug(r: RequiredPullRequestReviews) -> Seq<char> {
    "RequiredPullRequestReviews { required_approving_review_count: "@ + dec(r.required_approving_review_count as nat)
        + ", dismiss_stale_reviews: "@ + bool_text(r.dismiss_stale_reviews) + ", require_code_owner_reviews: "@
        + bool_text(r.require_code_owner_reviews) + " }"@
}

/// `Debug` of the actual status checks, as an `Option`.
pub open spec fn actual_checks_debug(a: Option<BranchProtection>) -> Seq<char> {
    match a {
        Some(p) => match p.required_status_checks {
            Some(rc) => "Some("@ + checks_debug(rc.strict, rc.contexts.deep_view()) + ")"@,
            None => "None"@,
        },
        None => "None"@,
    }
}

/// `Debug` of the actual reviews, as an `Option`.
pub open spec fn actual_reviews_debug(a: Option<BranchProtection>) -> Seq<char> {
    match a {
        Some(p) => match p.required_pull_request_reviews {
            Some(r) => "Some("@ + reviews_debug(r) + ")"@,
            None => "None"@,
        },
        None => "None"@,
    }
}

/// The mismatch lines, in field order, between the configured and the actual protection.
pub open spec fn protection_mismatches(c: BranchProtectionConfig, a: Option<BranchProtection>) -> Seq<Seq<char>> {
    (match c.required_status_checks {
        Some(e) => if checks_in_place(a, e) {
            Seq::empty()
        } else {
            seq!["required_status_checks: actual="@ + actual_checks_debug(a) + " expected="@
                + checks_debug(e.strict, e.contexts.deep_view())]
        },
        None => Seq::empty(),
    }) + (match c.required_pull_request_reviews {
        Some(e) => if reviews_in_place(a, e) {
            Seq::empty()
        } else {
            seq!["required_pull_request_reviews: actual="@ + actual_reviews_debug(a) + " expected="@
                + reviews_debug(reviews_of(e))]
        },
        None => Seq::empty(),
    }) + bool_mismatch("enforce_admins"@, c.enforce_admins, flag(a, 0))
        + bool_mismatch("required_linear_history"@, c.required_linear_history, flag(a, 1))
        + bool_mismatch("allow_force_pushes"@, c.allow_force_pushes, flag(a, 2))
        + bool_mismatch("allow_deletions"@, c.allow_deletions, flag(a, 3))
}

/// The patch setting exactly the configured values that differ from the actual protection.
pub open spec fn protection_patch(c: BranchProtectionConfig, a: Option<BranchProtection>) -> BranchProtectionPatchView {
    BranchProtectionPatchView {
        required_status_checks: match c.required_status_checks {
            Some(e) => if checks_in_place(a, e) { None } else { Some((e.strict, e.contexts@)) },
            None => None,
        },
        required_pull_request_reviews: match c.required_pull_request_reviews {
            Some(e) => if reviews_in_place(a, e) { None } else { Some(reviews_of(e)) },
            None => None,
        },
        enforce_admins: differing(c.enforce_admins, flag(a, 0)),
        required_linear_history: differing(c.required_linear_history, flag(a, 1)),
        allow_force_pushes: differing(c.allow_force_pushes, flag(a, 2)),
        allow_deletions: differing(c.allow_deletions, flag(a, 3)),
    }
}

/// The judgement of `branch_protection` on `branch` for a config and the actual protection.
pub open spec fn branch_protection_judgement(c: BranchProtectionConfig, branch: Seq<char>, a: Option<BranchProtection>) -> Judgement {
    let m = protection_mismatches(c, a);
    if m.len() == 0 {
        Judgement::Pass("Branch protection on '"@ + branch + "' matches policy"@)
    } else {
        Judgement::Fail(
            "Branch protection on '"@ + branch + "' differs: "@ + join(m, ", "@),
            Some(FixView::Protection {
                description: "Update branch protection on '"@ + branch + "': "@ + join(m, ", "@),
                branch,
                patch: protection_patch(c, a),
            }),
        )
    }
}

fn render_strings_debug(v: &Vec<String>) -> (s: String)
    ensures
        s@ == strings_debug(v.deep_view()),
{
    let mut parts: Vec<String> = Vec::new();
    for i in 0..v.len()
        invariant
            parts.deep_view() =~= v.deep_view().take(i as int).map_values(|s: Seq<char>| str_debug(s)),
    {
        let ghost before = parts.deep_view();
        parts.push(debug_str(v[i].as_str()));
        proof {
            assert(parts.deep_view() =~= before.push(str_debug(v@[i as int]@)));
            assert(v.deep_view().take(i + 1) =~= v.deep_view().take(i as int).push(v@[i as int]@));
        }
    }
    proof { assert(v.deep_view().take(v@.len() as int) =~= v.deep_view()); }
    let joined = join_strings(&parts, ", ");
    concat3("[", joined.as_str(), "]")
}

fn render_checks_debug(strict: bool, contexts: &Vec<String>) -> (s: String)
    ensures
        s@ == checks_debug(strict, contexts.deep_view()),
{
    let mut s = concat3("RequiredStatusChecks { strict: ", bool_str(strict), ", contexts: ");
    let list = render_strings_debug(contexts);
    s.append(list.as_str());
    s.append(" }");
    s
}

fn render_reviews_debug(r: RequiredPullRequestReviews) -> (s: String)
    ensures
        s@ == reviews_debug(r),
{
    let count = usize_to_string(r.required_approving_review_count as usize);
    let mut s = concat3("RequiredPullRequestReviews { required_approving_review_count: ", count.as_str(), ", dismiss_stale_reviews: ");
    s.append(bool_str(r.dismiss_stale_reviews));
    s.append(", require_code_owner_reviews: ");
    s.append(bool_str(r.require_code_owner_reviews));
    s.append(" }");
    s
}

fn actual_flag(a: &Option<BranchProtection>, which: usize) -> (b: bool)
    requires
        which < 4,
    ensures
        b == flag(*a, which as int),
{
    match a {
        Some(p) => if which == 0 {
            p.enforce_admins
        } else if which == 1 {
            p.required_linear_history
        } else if which == 2 {
            p.allow_force_pushes
        } else {
            p.allow_deletions
        },
        None => false,
    }
}

fn check_flag(mismatches: &mut Vec<String>, name: &str, expected: Option<bool>, actual: bool) -> (d: Option<bool>)
    ensures
        final(mismatches).deep_view() == old(mismatches).deep_view() + bool_mismatch(name@, expected, actual),
        d == differing(expected, actual),
{
    let ghost before = mismatches.deep_view();
    match expected {
        Some(e) => if e != actual {
            let mut line = concat3(name, ": actual=", bool_str(actual));
            line.append(" expected=");
            line.append(bool_str(e));
            mismatches.push(line);
            proof { assert(mismatches.deep_view() =~= before + bool_mismatch(name@, expected, actual)); }
            Some(e)
        } else {
            proof { assert(mismatches.deep_view() =~= before + Seq::<Seq<char>>::empty()); }
            None
        },
        None => {
            proof { assert(mismatches.deep_view() =~= before + Seq::<Seq<char>>::empty()); }
            None
        },
    }
}

/// The model form of configured status checks.
pub fn to_required_status_checks(c: &RequiredStatusChecksConfig) -> (r: RequiredStatusChecks)
    ensures
        r.strict == c.strict,
        r.contexts@ == c.contexts@,
{
    let contexts = c.contexts.clone();
    proof { assert(contexts@ =~= c.contexts@); }
    RequiredStatusChecks { strict: c.strict, contexts }
}

/// The model form of configured review requirements.
pub fn to_required_pr_reviews(c: &RequiredPullRequestReviewsConfig) -> (r: RequiredPullRequestReviews)
    ensures
        r == reviews_of(*c),
{
    RequiredPullRequestReviews {
        required_approving_review_count: c.required_approving_review_count,
        dismiss_stale_reviews: c.dismiss_stale_reviews,
        require_code_owner_reviews: c.require_code_owner_reviews,
    }
}

impl BranchProtectionRule {
    pub fn new(config: BranchProtectionConfig) -> (r: Self)
        ensures
            r.spec_config() == config,
    {
        BranchProtectionRule { config }
    }

    /// The configuration this rule checks.
    pub closed spec fn spec_config(&self) -> BranchProtectionConfig {
        self.config
    }

    /// The branch to check: the configured one, else the repository's default branch.
    pub fn target_branch(&self, default_branch: &str) -> (b: String)
        ensures
            b@ == match self.spec_config().branch {
                Some(x) => x@,
                None => default_branch@,
            },
    {
        match &self.config.branch {
            Some(b) => b.clone(),
            None => default_branch.to_owned(),
        }
    }

    /// The mismatch lines and the patch that would bring `actual` in line with the policy.
    pub fn diff(&self, actual: &Option<BranchProtection>) -> (r: (Vec<String>, BranchProtectionPatch))
        ensures
            r.0.deep_view() == protection_mismatches(self.spec_config(), *actual),
            r.1@ == protection_patch(self.spec_config(), *actual),
    {
        let c = &self.config;
        let mut m: Vec<String> = Vec::new();
        let checks = match &c.required_status_checks {
            Some(e) => {
                let in_place = match actual {
                    Some(p) => match &p.required_status_checks {
                        Some(rc) => rc.strict == e.strict && crate::model::strings_equal(&rc.contexts, &e.contexts),
                        None => false,
                    },
                    None => false,
                };
                if in_place {
                    None
                } else {
                    let actual_text = match actual {
                        Some(p) => match &p.required_status_checks {
                            Some(rc) => {
                                let inner = render_checks_debug(rc.strict, &rc.contexts);
                                concat3("Some(", inner.as_str(), ")")
                            },
                            None => "None".to_owned(),
                        },
                        None => "None".to_owned(),
                    };
                    let expected_text = render_checks_debug(e.strict, &e.contexts);
                    let mut line = concat3("required_status_checks: actual=", actual_text.as_str(), " expected=");
                    line.append(expected_text.as_str());
                    m.push(line);
                    Some(to_required_status_checks(e))
                }
            },
            None => None,
        };
        let ghost after_checks = m.deep_view();
        let reviews = match &c.required_pull_request_reviews {
            Some(e) => {
                let expected = to_required_pr_reviews(e);
                let in_place = match actual {
                    Some(p) => match p.required_pull_request_reviews {
                        Some(r) => r == expected,
                        None => false,
                    },
                    None => false,
                };
                if in_place {
                    None
                } else {
                    let actual_text = match actual {
                        Some(p) => match p.required_pull_request_reviews {
                            Some(r) => {
                                let inner = render_reviews_debug(r);
                                concat3("Some(", inner.as_str(), ")")
                            },
                            None => "None".to_owned(),
                        },
                        None => "None".to_owned(),
                    };
                    let expected_text = render_reviews_debug(expected);
                    let mut line = concat3("required_pull_request_reviews: actual=", actual_text.as_str(), " expected=");
                    line.append(expected_text.as_str());
                    m.push(line);
                    Some(expected)
                }
            },
            None => None,
        };
        let ghost after_reviews = m.deep_view();
        proof {
            assert(after_reviews =~= (match c.required_status_checks {
                Some(e) => if checks_in_place(*actual, e) {
                    Seq::empty()
                } else {
                    seq!["required_status_checks: actual="@ + actual_checks_debug(*actual) + " expected="@
                        + checks_debug(e.strict, e.contexts.deep_view())]
                },
                None => Seq::empty(),
            }) + (match c.required_pull_request_reviews {
                Some(e) => if reviews_in_place(*actual, e) {
                    Seq::empty()
                } else {
                    seq!["required_pull_request_reviews: actual="@ + actual_reviews_debug(*actual) + " expected="@
                        + reviews_debug(reviews_of(e))]
                },
                None => Seq::empty(),
            }));
        }
        let enforce_admins = check_flag(&mut m, "enforce_admins", c.enforce_admins, actual_flag(actual, 0));
        let required_linear_history = check_flag(&mut m, "required_linear_history", c.required_linear_history, actual_flag(actual, 1));
        let allow_force_pushes = check_flag(&mut m, "allow_force_pushes", c.allow_force_pushes, actual_flag(actual, 2));
        let allow_deletions = check_flag(&mut m, "allow_deletions", c.allow_deletions, actual_flag(actual, 3));
        proof {
            assert(m.deep_view() =~= protection_mismatches(self.spec_config(), *actual));
        }
        let patch = BranchProtectionPatch {
            required_status_checks: checks,
            required_pull_request_reviews: reviews,
            enforce_admins,
            required_linear_history,
            allow_force_pushes,
            allow_deletions,
        };
        proof {
            assert(patch@ == protection_patch(self.spec_config(), *actual));
        }
        (m, patch)
    }

    /// Judge `branch` from its actual protection (`None`: unprotected).
    pub fn judge(&self, branch: String, actual: &Option<BranchProtection>) -> (r: RuleResult)
        ensures
            yields(r, "branch_protection"@, branch_protection_judgement(self.spec_config(), branch@, *actual)),
    {
        let (m, patch) = self.diff(actual);
        if m.len() == 0 {
            return RuleResult::Pass { detail: concat3("Branch protection on '", branch.as_str(), "' matches policy") };
        }
        let joined = join_strings(&m, ", ");
        let mut detail = concat3("Branch protection on '", branch.as_str(), "' differs: ");
        detail.append(joined.as_str());
        let mut description = concat3("Update branch protection on '", branch.as_str(), "': ");
        description.append(joined.as_str());
        let fix = AttributedRemediation::new("branch_protection", Remediation::BranchProtection { description, branch, patch });
        RuleResult::Fail { detail, remediation: Some(fix) }
    }
}


/// `b` is the protection after applying the patch `p` to `a` (an unprotected branch has no
/// requirements and every flag off): each field the patch sets takes its value, the others
/// stay as they were.
pub open spec fn after_patch(a: Option<BranchProtection>, p: BranchProtectionPatchView, b: BranchProtection) -> bool {
    &&& match p.required_status_checks {
        Some((strict, contexts)) => b.required_status_checks matches Some(rc) && rc.strict == strict && rc.contexts@ == contexts,
        None => b.required_status_checks == match a {
            Some(x) => x.required_status_checks,
            None => None,
        },
    }
    &&& match p.required_pull_request_reviews {
        Some(r) => b.required_pull_request_reviews == Some(r),
        None => b.required_pull_request_reviews == match a {
            Some(x) => x.required_pull_request_reviews,
            None => None,
        },
    }
    &&& b.enforce_admins == match p.enforce_admins { Some(v) => v, None => flag(a, 0) }
    &&& b.required_linear_history == match p.required_linear_history { Some(v) => v, None => flag(a, 1) }
    &&& b.allow_force_pushes == match p.allow_force_pushes { Some(v) => v, None => flag(a, 2) }
    &&& b.allow_deletions == match p.allow_deletions { Some(v) => v, None => flag(a, 3) }
}

/// The remediation fixes the violation: once the patch the rule offers is applied to the
/// branch, its protection matches the policy.
pub proof fn law_protection_patch_fixes(c: BranchProtectionConfig, a: Option<BranchProtection>, b: BranchProtection)
    requires
        after_patch(a, protection_patch(c, a), b),
    ensures
        protection_mismatches(c, Some(b)).len() == 0,
{
    let sb = Some(b);
    match c.required_status_checks {
        Some(e) => {
            if !checks_in_place(a, e) {
                let rc = b.required_status_checks->0;
                assert(rc.contexts.deep_view() =~= e.contexts.deep_view());
            }
            assert(checks_in_place(sb, e));
        },
        None => {},
    }
    match c.required_pull_request_reviews {
        Some(e) => {
            assert(reviews_in_place(sb, e));
        },
        None => {},
    }
    assert(bool_mismatch("enforce_admins"@, c.enforce_admins, flag(sb, 0)).len() == 0);
    assert(bool_mismatch("required_linear_history"@, c.required_linear_history, flag(sb, 1)).len() == 0);
    assert(bool_mismatch("allow_force_pushes"@, c.allow_force_pushes, flag(sb, 2)).len() == 0);
    assert(bool_mismatch("allow_deletions"@, c.allow_deletions, flag(sb, 3)).len() == 0);
}

/// A protection flag as the branch has it: `false` when the branch is unprotected.
pub open spec fn actual_flag_of(a: Option<BranchProtection>, f: spec_fn(BranchProtection) -> bool) -> bool {
    match a {
        Some(p) => f(p),
        None => false,
    }
}

/// Every configured part of the protection is in place on the branch.
pub open spec fn protection_conforms(c: BranchProtectionConfig, a: Option<BranchProtection>) -> bool {
    &&& (c.required_status_checks matches Some(e) ==> (a matches Some(p) && p.required_status_checks matches Some(rc)
        && rc.strict == e.strict && rc.contexts.deep_view() == e.contexts.deep_view()))
    &&& (c.required_pull_request_reviews matches Some(e) ==> (a matches Some(p) && p.required_pull_request_reviews
        == Some(RequiredPullRequestReviews {
            required_approving_review_count: e.required_approving_review_count,
            dismiss_stale_reviews: e.dismiss_stale_reviews,
            require_code_owner_reviews: e.require_code_owner_reviews,
        })))
    &&& holds(c.enforce_admins, actual_flag_of(a, |p: BranchProtection| p.enforce_admins))
    &&& holds(c.required_linear_history, actual_flag_of(a, |p: BranchProtection| p.required_linear_history))
    &&& holds(c.allow_force_pushes, actual_flag_of(a, |p: BranchProtection| p.allow_force_pushes))
    &&& holds(c.allow_deletions, actual_flag_of(a, |p: BranchProtection| p.allow_deletions))
}

/// The branch-protection rule judges part by part: it passes exactly when every configured
/// part is in place (an unprotected branch has every flag off and no checks or reviews);
/// otherwise it fails and offers a patch that sets each configured flag whose actual value
/// differs, to the configured value, and no other flag, and that carries the configured
/// checks and reviews exactly when they are not in place.
pub proof fn law_protection_judged_part_by_part(c: BranchProtectionConfig, branch: Seq<char>, a: Option<BranchProtection>)
    ensures
        (branch_protection_judgement(c, branch, a) is Pass) == protection_conforms(c, a),
        !protection_conforms(c, a) ==> (branch_protection_judgement(c, branch, a) matches Judgement::Fail(
            _,
            Some(FixView::Protection { patch, branch: b, .. }),
        ) && patch == protection_patch(c, a) && b == branch),
        patches_to(c.enforce_admins, actual_flag_of(a, |p: BranchProtection| p.enforce_admins), protection_patch(c, a).enforce_admins),
        patches_to(
            c.required_linear_history,
            actual_flag_of(a, |p: BranchProtection| p.required_linear_history),
            protection_patch(c, a).required_linear_history,
        ),
        patches_to(
            c.allow_force_pushes,
            actual_flag_of(a, |p: BranchProtection| p.allow_force_pushes),
            protection_patch(c, a).allow_force_pushes,
        ),
        patches_to(c.allow_deletions, actual_flag_of(a, |p: BranchProtection| p.allow_deletions), protection_patch(c, a).allow_deletions),
        match c.required_status_checks {
            Some(e) => if a matches Some(p) && p.required_status_checks matches Some(rc) && rc.strict == e.strict
                && rc.contexts.deep_view() == e.contexts.deep_view() {
                protection_patch(c, a).required_status_checks is None
            } else {
                protection_patch(c, a).required_status_checks == Some((e.strict, e.contexts@))
            },
            None => protection_patch(c, a).required_status_checks is None,
        },
        match c.required_pull_request_reviews {
            Some(e) => {
                let want = RequiredPullRequestReviews {
                    required_approving_review_count: e.required_approving_review_count,
                    dismiss_stale_reviews: e.dismiss_stale_reviews,
                    require_code_owner_reviews: e.require_code_owner_reviews,
                };
                if a matches Some(p) && p.required_pull_request_reviews == Some(want) {
                    protection_patch(c, a).required_pull_request_reviews is None
                } else {
                    protection_patch(c, a).required_pull_request_reviews == Some(want)
                }
            },
            None => protection_patch(c, a).required_pull_request_reviews is None,
        },
{
    assert(flag(a, 0) == actual_flag_of(a, |p: BranchProtection| p.enforce_admins));
    assert(flag(a, 1) == actual_flag_of(a, |p: BranchProtection| p.required_linear_history));
    assert(flag(a, 2) == actual_flag_of(a, |p: BranchProtection| p.allow_force_pushes));
    assert(flag(a, 3) == actual_flag_of(a, |p: BranchProtection| p.allow_deletions));
    lemma_bool_mismatch("enforce_admins"@, c.enforce_admins, flag(a, 0));
    lemma_bool_mismatch("required_linear_history"@, c.required_linear_history, flag(a, 1));
    lemma_bool_mismatch("allow_force_pushes"@, c.allow_force_pushes, flag(a, 2));
    lemma_bool_mismatch("allow_deletions"@, c.allow_deletions, flag(a, 3));
}

impl Rule for BranchProtectionRule {
    fn rule_type(&self) -> (s: &str)
        ensures
            s@ == "branch_protection"@,
    {
        "branch_protection"
    }

    fn description(&self) -> (s: String)
        ensures
            s@ == "Ensure branch protection matches policy"@,
    {
        "Ensure branch protection matches policy".to_owned()
    }
}

} // verus!
