//! Combining rule results into a repository outcome, and tallying outcomes.

use vstd::prelude::*;
use vstd::string::*;

use crate::config::PolicyConfig;
use crate::formatter::{count_kind, lemma_count_kinds_total, OutcomeKind, PolicyReport, RepoOutcome, RepoResult, Summary};
use crate::model::{clone_opt_string, Repo};
use crate::rule::{AttributedRemediation, RemediationView, RuleResult};
use crate::text::join;

verus! {

/// The text a rule result carries (detail, reason or message).
pub open spec fn result_text(r: RuleResult) -> Seq<char> {
    match r {
        RuleResult::Pass { detail } => detail@,
        RuleResult::Fail { detail, .. } => detail@,
        RuleResult::Skip { reason } => reason@,
        RuleResult::Error { message } => message@,
    }
}

/// The texts of all rule results, in order.
pub open spec fn result_texts(rs: Seq<RuleResult>) -> Seq<Seq<char>> {
    rs.map_values(|r: RuleResult| result_text(r))
}

/// The remediations attached to failing rule results, in order.
pub open spec fn result_remediations(rs: Seq<RuleResult>) -> Seq<(String, RemediationView)>
    decreases rs.len(),
{
    if rs.len() == 0 {
        Seq::empty()
    } else {
        result_remediations(rs.drop_last()) + match rs.last() {
            RuleResult::Fail { remediation: Some(a), .. } => seq![a@],
            _ => Seq::empty(),
        }
    }
}

/// The views of a list of attributed remediations.
pub open spec fn attributed_views(s: Seq<AttributedRemediation>) -> Seq<(String, RemediationView)> {
    s.map_values(|a: AttributedRemediation| a@)
}

/// Combine the results of all rules of a policy on one repository.
///
/// Errors take priority over failures, failures over skips, skips over passes.
/// The texts of all results are joined with `"; "`; a failure carries every
/// remediation the failing rules offered, in order.
pub fn aggregate_outcomes(outcomes: &[RuleResult]) -> (o: RepoOutcome)
    ensures
        o.spec_text() == join(result_texts(outcomes@), "; "@),
        (exists|i: int| 0 <= i < outcomes@.len() && outcomes@[i] is Error) ==> o is Error,
        !(exists|i: int| 0 <= i < outcomes@.len() && outcomes@[i] is Error) && (exists|i: int|
            0 <= i < outcomes@.len() && outcomes@[i] is Fail) ==> o is Fail,
        !(exists|i: int| 0 <= i < outcomes@.len() && (outcomes@[i] is Error || outcomes@[i] is Fail))
            && (exists|i: int| 0 <= i < outcomes@.len() && outcomes@[i] is Skip) ==> o is Skip,
        (forall|i: int| 0 <= i < outcomes@.len() ==> outcomes@[i] is Pass) ==> o is Pass,
        o matches RepoOutcome::Fail { remediations, .. } ==> attributed_views(remediations@)
            == result_remediations(outcomes@),
{
    let mut has_error = false;
    let mut has_fail = false;
    let mut has_skip = false;
    let mut details: Vec<String> = Vec::new();
    let mut remediations: Vec<AttributedRemediation> = Vec::new();
    for i in 0..outcomes.len()
        invariant
            details@.len() == i,
            details.deep_view() == result_texts(outcomes@.take(i as int)),
            attributed_views(remediations@) == result_remediations(outcomes@.take(i as int)),
            has_error == exists|j: int| 0 <= j < i && outcomes@[j] is Error,
            has_fail == exists|j: int| 0 <= j < i && outcomes@[j] is Fail,
            has_skip == exists|j: int| 0 <= j < i && outcomes@[j] is Skip,
    {
        proof { assert(outcomes@.take(i + 1).drop_last() =~= outcomes@.take(i as int)); }
        let ghost old_details = details.deep_view();
        let ghost old_rems = attributed_views(remediations@);
        let t: String = match &outcomes[i] {
            RuleResult::Error { message } => {
                has_error = true;
                message.clone()
            },
            RuleResult::Fail { detail, remediation } => {
                has_fail = true;
                if let Some(r) = remediation {
                    remediations.push(r.clone());
                    proof { assert(attributed_views(remediations@) =~= old_rems.push(r@)); }
                }
                detail.clone()
            },
            RuleResult::Skip { reason } => {
                has_skip = true;
                reason.clone()
            },
            RuleResult::Pass { detail } => detail.clone(),
        };
        proof { assert(t@ == result_text(outcomes@[i as int])); }
        details.push(t);
        proof {
            assert(details.deep_view()[i as int] == details@[i as int]@);
            assert(details.deep_view().drop_last() =~= old_details);
            assert forall|j: int| 0 <= j < i + 1 implies details.deep_view()[j] == result_texts(outcomes@.take(i + 1))[j] by {
                if j < i {
                    assert(details.deep_view()[j] == old_details[j]);
                    assert(old_details[j] == result_texts(outcomes@.take(i as int))[j]);
                }
            }
            assert(details.deep_view() =~= result_texts(outcomes@.take(i + 1)));
            assert(attributed_views(remediations@) =~= result_remediations(outcomes@.take(i + 1)));
        }
    }
    proof {
        assert(outcomes@.take(outcomes@.len() as int) =~= outcomes@);
    }
    let combined = crate::text::join_strings(&details, "; ");
    if has_error {
        RepoOutcome::Error { message: combined }
    } else if has_fail {
        RepoOutcome::Fail { detail: combined, remediations }
    } else if has_skip {
        RepoOutcome::Skip { reason: combined }
    } else {
        proof {
            if outcomes@.len() > 0 {
                assert(!(outcomes@[0] is Error || outcomes@[0] is Fail || outcomes@[0] is Skip));
            }
        }
        RepoOutcome::Pass { detail: combined }
    }
}

/// The summary after adding one policy's results: one more repository per
/// result, counted under its outcome kind.
pub open spec fn summary_plus(s: Summary, rs: Seq<RepoResult>) -> (int, int, int, int, int) {
    (
        s.total_repos + rs.len(),
        s.passing + count_kind(rs, OutcomeKind::Pass),
        s.failing + count_kind(rs, OutcomeKind::Fail),
        s.skipped + count_kind(rs, OutcomeKind::Skip),
        s.errors + count_kind(rs, OutcomeKind::Error),
    )
}

/// Add one policy's results to the running summary.
pub fn tally(summary: &mut Summary, results: &Vec<RepoResult>)
    requires
        old(summary).total_repos + results@.len() <= usize::MAX,
        old(summary).passing + results@.len() <= usize::MAX,
        old(summary).failing + results@.len() <= usize::MAX,
        old(summary).skipped + results@.len() <= usize::MAX,
        old(summary).errors + results@.len() <= usize::MAX,
    ensures
        summary_plus(*old(summary), results@) == (
            final(summary).total_repos as int,
            final(summary).passing as int,
            final(summary).failing as int,
            final(summary).skipped as int,
            final(summary).errors as int,
        ),
{
    let ghost s0 = *summary;
    for i in 0..results.len()
        invariant
            s0 == *old(summary),
            s0.total_repos + results@.len() <= usize::MAX,
            s0.passing + results@.len() <= usize::MAX,
            s0.failing + results@.len() <= usize::MAX,
            s0.skipped + results@.len() <= usize::MAX,
            s0.errors + results@.len() <= usize::MAX,
            summary_plus(s0, results@.take(i as int)) == (
                summary.total_repos as int,
                summary.passing as int,
                summary.failing as int,
                summary.skipped as int,
                summary.errors as int,
            ),
    {
        proof {
            assert(results@.take(i + 1).drop_last() =~= results@.take(i as int));
            lemma_count_kinds_total(results@.take(i as int));
        }
        summary.total_repos = summary.total_repos + 1;
        match results[i].outcome.kind() {
            OutcomeKind::Pass => summary.passing = summary.passing + 1,
            OutcomeKind::Fail => summary.failing = summary.failing + 1,
            OutcomeKind::Skip => summary.skipped = summary.skipped + 1,
            OutcomeKind::Error => summary.errors = summary.errors + 1,
        }
    }
    proof { assert(results@.take(results@.len() as int) =~= results@); }
}


/// The result of one repository under one policy: its name and default branch, and the
/// combination of its rule results.
pub fn repo_result_of(repo: &Repo, outcomes: &Vec<RuleResult>) -> (rr: RepoResult)
    ensures
        rr.repo_name@ == repo.full_name@,
        rr.default_branch@ == repo.default_branch@,
        rr.outcome.spec_text() == join(result_texts(outcomes@), "; "@),
        (exists|i: int| 0 <= i < outcomes@.len() && outcomes@[i] is Error) ==> rr.outcome is Error,
        !(exists|i: int| 0 <= i < outcomes@.len() && outcomes@[i] is Error) && (exists|i: int|
            0 <= i < outcomes@.len() && outcomes@[i] is Fail) ==> rr.outcome is Fail,
        !(exists|i: int| 0 <= i < outcomes@.len() && (outcomes@[i] is Error || outcomes@[i] is Fail))
            && (exists|i: int| 0 <= i < outcomes@.len() && outcomes@[i] is Skip) ==> rr.outcome is Skip,
        (forall|i: int| 0 <= i < outcomes@.len() ==> outcomes@[i] is Pass) ==> rr.outcome is Pass,
        rr.outcome matches RepoOutcome::Fail { remediations, .. } ==> attributed_views(remediations@)
            == result_remediations(outcomes@),
{
    let outcome = aggregate_outcomes(outcomes.as_slice());
    RepoResult { repo_name: repo.full_name.clone(), default_branch: repo.default_branch.clone(), outcome }
}

/// The report section of one policy: its name, description and severity with the results.
pub fn policy_report_of(policy: &PolicyConfig, repo_results: Vec<RepoResult>) -> (p: PolicyReport)
    ensures
        p.policy_name@ == policy.name@,
        p.description == policy.description,
        p.severity == policy.severity,
        p.repo_results@ == repo_results@,
{
    PolicyReport {
        policy_name: policy.name.clone(),
        description: clone_opt_string(&policy.description),
        severity: policy.severity,
        repo_results,
    }
}

} // verus!
