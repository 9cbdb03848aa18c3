//! The apply phase: deciding, per failing repository, what to do with its remediations.

use vstd::prelude::*;

use vstd::string::*;

use crate::config::{ExistingPrStrategy, RootConfig};
use crate::formatter::{PolicyReport, RepoOutcome, RepoResult, Report};
use crate::model::{Autolink, AutolinkSpec, BranchProtectionPatch, FileChange, PullRequest, Repo, RepoSettingsPatch, Severity, Visibility};
use crate::text::{find_from, find_str, str_eq, tail_str};
use crate::rule::{AttributedRemediation, Remediation};

verus! {

/// Result of the apply phase: the original check report plus all PR actions taken.
#[derive(Debug)]
pub struct ApplyReport {
    pub report: Report,
    pub prs_created: Vec<PrAction>,
    pub prs_updated: Vec<PrAction>,
    pub prs_skipped: Vec<PrAction>,
    pub prs_errored: Vec<PrAction>,
    /// Number of PRs not created because the `max_prs` limit was reached.
    pub prs_limited: usize,
    pub settings_applied: Vec<SettingsAction>,
    pub settings_errored: Vec<SettingsAction>,
    pub branch_protection_applied: Vec<BranchProtectionAction>,
    pub branch_protection_errored: Vec<BranchProtectionAction>,
    pub autolinks_applied: Vec<AutolinkAction>,
    pub autolinks_errored: Vec<AutolinkAction>,
}

/// A single autolink update taken (or previewed) during apply.
#[derive(Debug)]
pub struct AutolinkAction {
    pub repo_name: String,
    pub policy_name: String,
    pub spec: AutolinkSpec,
    pub action: SettingsActionKind,
    pub error: Option<String>,
}

/// A single repo-settings update taken (or skipped) during apply.
#[derive(Debug)]
pub struct SettingsAction {
    pub repo_name: String,
    pub policy_names: Vec<String>,
    pub patch: RepoSettingsPatch,
    pub action: SettingsActionKind,
    pub error: Option<String>,
}

/// A single branch-protection update taken (or skipped) during apply.
#[derive(Debug)]
pub struct BranchProtectionAction {
    pub repo_name: String,
    pub branch: String,
    pub policy_names: Vec<String>,
    pub patch: BranchProtectionPatch,
    pub action: SettingsActionKind,
    pub error: Option<String>,
}

/// What happened to a repo-settings update for a given repo.
#[derive(Debug, Clone, Copy, PartialEq, Eq, Structural)]
pub enum SettingsActionKind {
    Applied,
    DryRun,
    Error,
}

/// A single PR-related action taken (or skipped) during apply.
#[derive(Debug)]
pub struct PrAction {
    pub repo_name: String,
    pub policy_name: String,
    pub branch: String,
    pub pr: Option<PullRequest>,
    pub action: PrActionKind,
    pub error: Option<String>,
}

/// What happened to a remediation PR for a given repo + policy.
#[derive(Debug, Clone, Copy, PartialEq, Eq, Structural)]
pub enum PrActionKind {
    Created,
    Updated,
    Skipped,
    DryRun,
    Error,
}

/// The bullet lines listing one change: its path and whether it is written or deleted.
pub open spec fn change_lines(cs: Seq<FileChange>) -> Seq<char>
    decreases cs.len(),
{
    if cs.len() == 0 {
        Seq::empty()
    } else {
        change_lines(cs.drop_last()) + "  - `"@ + cs.last().path@ + "` ("@ + (if cs.last().content is Some {
            "create/update"@
        } else {
            "delete"@
        }) + ")\n"@
    }
}

/// The lines a remediation contributes to the `### Changes` section of a PR body.
pub open spec fn remediation_lines(r: Remediation) -> Seq<char> {
    match r {
        Remediation::FileChanges { description, changes } => "- "@ + description@ + "\n"@
            + change_lines(changes@),
        _ => "- "@ + r.spec_description()@ + "\n"@,
    }
}

/// The `### Changes` lines of all remediations, in order.
pub open spec fn remediations_lines(rs: Seq<Remediation>) -> Seq<char>
    decreases rs.len(),
{
    if rs.len() == 0 {
        Seq::empty()
    } else {
        remediations_lines(rs.drop_last()) + remediation_lines(rs.last())
    }
}

/// The closing line of every PR body.
pub open spec fn pr_body_footer() -> Seq<char> {
    "\n---\n*This PR was automatically created by [multipush](https://github.com/multipush/multipush).*\n"@
}

/// The Markdown description of a remediation PR.
pub open spec fn pr_body(
    policy: Seq<char>,
    description: Option<Seq<char>>,
    severity: Severity,
    repo: Seq<char>,
    rems: Seq<Remediation>,
) -> Seq<char> {
    "## Policy: "@ + policy + "\n\n"@ + (match description {
        Some(d) => d + "\n\n"@,
        None => Seq::empty(),
    }) + "**Severity:** "@ + severity.spec_name() + "\n"@ + "**Repository:** "@ + repo + "\n\n"@
        + "### Changes\n\n"@ + remediations_lines(rems) + pr_body_footer()
}

fn push_remediation_lines(body: &mut String, r: &Remediation)
    ensures
        final(body)@ == old(body)@ + remediation_lines(*r),
{
    match r {
        Remediation::FileChanges { description, changes } => {
            let ghost start = body@;
            body.append("- ");
            body.append(description.as_str());
            body.append("\n");
            let ghost head = body@;
            for i in 0..changes.len()
                invariant
                    body@ == head + change_lines(changes@.take(i as int)),
            {
                proof { assert(changes@.take(i + 1).drop_last() =~= changes@.take(i as int)); }
                body.append("  - `");
                body.append(changes[i].path.as_str());
                body.append("` (");
                if changes[i].content.is_some() {
                    body.append("create/update");
                } else {
                    body.append("delete");
                }
                body.append(")\n");
            }
            proof {
                assert(changes@.take(changes@.len() as int) =~= changes@);
                assert(body@ =~= start + remediation_lines(*r));
            }
        },
        _ => {
            let ghost start = body@;
            body.append("- ");
            body.append(r.description());
            body.append("\n");
            proof { assert(body@ =~= start + remediation_lines(*r)); }
        },
    }
}

fn push_pr_body_head(body: &mut String, policy_name: &str, description: Option<&str>, severity: Severity, repo_name: &str)
    ensures
        final(body)@ == old(body)@ + "## Policy: "@ + policy_name@ + "\n\n"@ + (match description {
            Some(d) => d@ + "\n\n"@,
            None => Seq::empty(),
        }) + "**Severity:** "@ + severity.spec_name() + "\n"@ + "**Repository:** "@ + repo_name@ + "\n\n"@
            + "### Changes\n\n"@,
{
    let ghost start = body@;
    body.append("## Policy: ");
    body.append(policy_name);
    body.append("\n\n");
    let ghost after_title = body@;
    match description {
        Some(d) => {
            body.append(d);
            body.append("\n\n");
        },
        None => {},
    }
    let ghost after_desc = body@;
    body.append("**Severity:** ");
    body.append(severity.name());
    body.append("\n");
    body.append("**Repository:** ");
    body.append(repo_name);
    body.append("\n\n");
    body.append("### Changes\n\n");
    proof {
        assert(after_desc =~= after_title + (match description {
            Some(d) => d@ + "\n\n"@,
            None => Seq::empty(),
        }));
    }
}

/// Render the Markdown description of a remediation PR: policy, description,
/// severity, repository, and one bullet per remediation (with each file change).
pub fn generate_pr_body(
    policy_name: &str,
    description: Option<&str>,
    severity: &Severity,
    repo_name: &str,
    remediations: &[Remediation],
) -> (body: String)
    ensures
        body@ == pr_body(
            policy_name@,
            match description { Some(d) => Some(d@), None => None },
            *severity,
            repo_name@,
            remediations@,
        ),
{
    let mut body = String::new();
    push_pr_body_head(&mut body, policy_name, description, *severity, repo_name);
    let ghost head = body@;
    for i in 0..remediations.len()
        invariant
            body@ == head + remediations_lines(remediations@.take(i as int)),
    {
        proof { assert(remediations@.take(i + 1).drop_last() =~= remediations@.take(i as int)); }
        push_remediation_lines(&mut body, &remediations[i]);
    }
    proof { assert(remediations@.take(remediations@.len() as int) =~= remediations@); }
    body.append("\n---\n*This PR was automatically created by [multipush](https://github.com/multipush/multipush).*\n");
    proof {
        assert(body@ =~= pr_body(
            policy_name@,
            match description { Some(d) => Some(d@), None => None },
            *severity,
            repo_name@,
            remediations@,
        ));
    }
    body
}

/// The remediations without their rule attribution.
pub open spec fn plain_rems(s: Seq<AttributedRemediation>) -> Seq<Remediation> {
    s.map_values(|a: AttributedRemediation| a.remediation)
}

/// The file changes of all file-changes remediations, concatenated in order.
pub open spec fn changes_of(rs: Seq<Remediation>) -> Seq<FileChange>
    decreases rs.len(),
{
    if rs.len() == 0 {
        Seq::empty()
    } else {
        changes_of(rs.drop_last()) + match rs.last() {
            Remediation::FileChanges { changes, .. } => changes@,
            _ => Seq::empty(),
        }
    }
}

/// Gather the file changes of all file-changes remediations, in order.
pub fn collect_changes(remediations: &Vec<AttributedRemediation>) -> (out: Vec<FileChange>)
    ensures
        out@ == changes_of(plain_rems(remediations@)),
{
    let mut out: Vec<FileChange> = Vec::new();
    for i in 0..remediations.len()
        invariant
            out@ == changes_of(plain_rems(remediations@.take(i as int))),
    {
        proof {
            assert(plain_rems(remediations@.take(i + 1)).drop_last() =~= plain_rems(remediations@.take(i as int)));
        }
        match &remediations[i].remediation {
            Remediation::FileChanges { changes, .. } => {
                let ghost before = out@;
                for j in 0..changes.len()
                    invariant
                        out@ == before + changes@.take(j as int),
                {
                    out.push(changes[j].clone());
                    proof { assert(changes@.take(j + 1) =~= changes@.take(j as int).push(changes@[j as int])); }
                }
                proof { assert(changes@.take(changes@.len() as int) =~= changes@); }
            },
            _ => {
                proof { assert(out@ =~= out@ + Seq::<FileChange>::empty()); }
            },
        }
    }
    proof { assert(remediations@.take(remediations@.len() as int) =~= remediations@); }
    out
}

/// How many file changes the file-changes remediations among `rs` carry in all.
pub open spec fn file_change_count(rs: Seq<Remediation>) -> nat
    decreases rs.len(),
{
    if rs.len() == 0 {
        0
    } else {
        file_change_count(rs.drop_last()) + if rs.last() is FileChanges { rs.last()->changes@.len() } else { 0 }
    }
}

proof fn lemma_file_change_count_prefix(rs: Seq<Remediation>, i: int)
    requires
        0 <= i < rs.len(),
    ensures
        file_change_count(rs.take(i + 1)) == file_change_count(rs.take(i)) + if rs[i] is FileChanges {
            rs[i]->changes@.len()
        } else {
            0
        },
        file_change_count(rs.take(i + 1)) <= file_change_count(rs),
    decreases rs.len() - i,
{
    assert(rs.take(i + 1).drop_last() =~= rs.take(i));
    if i + 1 < rs.len() {
        lemma_file_change_count_prefix(rs, i + 1);
    } else {
        assert(rs.take(i + 1) =~= rs);
    }
}

/// The changes a PR carries are those of every file-changes remediation, each in full and in
/// order, one after another: there are as many as all those remediations carry together, and
/// the changes of the remediation at position `i` start right after those of the file-changes
/// remediations before it.
pub proof fn law_collected_changes_concatenate(rs: Seq<Remediation>)
    ensures
        changes_of(rs).len() == file_change_count(rs),
        forall|i: int, k: int|
            #![trigger rs[i]->changes@[k]]
            0 <= i < rs.len() && rs[i] is FileChanges && 0 <= k < rs[i]->changes@.len() ==> changes_of(rs)[file_change_count(
                rs.take(i),
            ) + k] == rs[i]->changes@[k],
    decreases rs.len(),
{
    if rs.len() > 0 {
        let d = rs.drop_last();
        law_collected_changes_concatenate(d);
        assert forall|i: int, k: int|
            #![trigger rs[i]->changes@[k]]
            0 <= i < rs.len() && rs[i] is FileChanges && 0 <= k < rs[i]->changes@.len() implies changes_of(rs)[file_change_count(
                rs.take(i),
            ) + k] == rs[i]->changes@[k] by {
            if i < rs.len() - 1 {
                assert(d[i] == rs[i]);
                assert(rs.take(i) =~= d.take(i));
                lemma_file_change_count_prefix(d, i);
                assert(d[i]->changes@[k] == rs[i]->changes@[k]);
            } else {
                assert(rs.take(i) =~= d);
            }
        }
    }
}

/// The PR body for attributed remediations (attribution is not shown).
fn generate_pr_body_attributed(
    policy_name: &str,
    description: Option<&str>,
    severity: Severity,
    repo_name: &str,
    remediations: &Vec<AttributedRemediation>,
) -> (body: String)
    ensures
        body@ == pr_body(
            policy_name@,
            match description { Some(d) => Some(d@), None => None },
            severity,
            repo_name@,
            plain_rems(remediations@),
        ),
{
    let mut body = String::new();
    push_pr_body_head(&mut body, policy_name, description, severity, repo_name);
    let ghost head = body@;
    for i in 0..remediations.len()
        invariant
            body@ == head + remediations_lines(plain_rems(remediations@.take(i as int))),
    {
        proof {
            assert(plain_rems(remediations@.take(i + 1)).drop_last() =~= plain_rems(remediations@.take(i as int)));
        }
        push_remediation_lines(&mut body, &remediations[i].remediation);
    }
    proof { assert(remediations@.take(remediations@.len() as int) =~= remediations@); }
    body.append("\n---\n*This PR was automatically created by [multipush](https://github.com/multipush/multipush).*\n");
    proof {
        assert(body@ =~= pr_body(
            policy_name@,
            match description { Some(d) => Some(d@), None => None },
            severity,
            repo_name@,
            plain_rems(remediations@),
        ));
    }
    body
}

/// One (repository, policy) whose failure carries file changes: a PR to open or update.
#[derive(Debug)]
pub struct PrJob {
    pub repo_name: String,
    pub policy_name: String,
    /// Remediation branch, `{pr_prefix}/{policy}`.
    pub branch: String,
    /// Base branch: the repository's default branch.
    pub base: String,
    pub title: String,
    pub body: String,
    pub changes: Vec<FileChange>,
}

/// The content of a [`PrJob`].
pub struct PrJobView {
    pub repo_name: Seq<char>,
    pub policy_name: Seq<char>,
    pub branch: Seq<char>,
    pub base: Seq<char>,
    pub title: Seq<char>,
    pub body: Seq<char>,
    pub changes: Seq<FileChange>,
}

impl View for PrJob {
    type V = PrJobView;

    open spec fn view(&self) -> PrJobView {
        PrJobView {
            repo_name: self.repo_name@,
            policy_name: self.policy_name@,
            branch: self.branch@,
            base: self.base@,
            title: self.title@,
            body: self.body@,
            changes: self.changes@,
        }
    }
}

/// Whether a result is a failure whose remediations include a file-changes one.
pub open spec fn needs_pr(o: RepoOutcome) -> bool {
    o matches RepoOutcome::Fail { remediations, .. } && exists|i: int|
        0 <= i < remediations@.len() && (#[trigger] remediations@[i]).remediation is FileChanges
}

/// The PR job for a failing result of a policy.
pub open spec fn job_for(p: PolicyReport, rr: RepoResult, prefix: Seq<char>) -> PrJobView {
    let rems = plain_rems(match rr.outcome {
        RepoOutcome::Fail { remediations, .. } => remediations@,
        _ => Seq::empty(),
    });
    PrJobView {
        repo_name: rr.repo_name@,
        policy_name: p.policy_name@,
        branch: prefix + "/"@ + p.policy_name@,
        base: rr.default_branch@,
        title: "policy("@ + p.policy_name@ + "): apply remediations"@,
        body: pr_body(
            p.policy_name@,
            match p.description { Some(d) => Some(d@), None => None },
            p.severity,
            rr.repo_name@,
            rems,
        ),
        changes: changes_of(rems),
    }
}

/// The PR jobs of one policy, in result order.
pub open spec fn jobs_of_results(p: PolicyReport, rs: Seq<RepoResult>, prefix: Seq<char>) -> Seq<PrJobView>
    decreases rs.len(),
{
    if rs.len() == 0 {
        Seq::empty()
    } else if needs_pr(rs.last().outcome) {
        jobs_of_results(p, rs.drop_last(), prefix).push(job_for(p, rs.last(), prefix))
    } else {
        jobs_of_results(p, rs.drop_last(), prefix)
    }
}

/// The PR jobs of a report, policy by policy.
pub open spec fn jobs_of_policies(ps: Seq<PolicyReport>, prefix: Seq<char>) -> Seq<PrJobView>
    decreases ps.len(),
{
    if ps.len() == 0 {
        Seq::empty()
    } else {
        jobs_of_policies(ps.drop_last(), prefix) + jobs_of_results(ps.last(), ps.last().repo_results@, prefix)
    }
}

/// The contents of a list of jobs.
pub open spec fn job_views(s: Seq<PrJob>) -> Seq<PrJobView> {
    s.map_values(|j: PrJob| j@)
}

fn has_file_changes_variant(rems: &Vec<AttributedRemediation>) -> (b: bool)
    ensures
        b == exists|i: int| 0 <= i < rems@.len() && (#[trigger] rems@[i]).remediation is FileChanges,
{
    for i in 0..rems.len()
        invariant
            forall|j: int| 0 <= j < i ==> !((#[trigger] rems@[j]).remediation is FileChanges),
    {
        if let Remediation::FileChanges { .. } = &rems[i].remediation {
            return true;
        }
    }
    false
}

fn make_job(p: &PolicyReport, rr: &RepoResult, rems: &Vec<AttributedRemediation>, prefix: &str) -> (j: PrJob)
    requires
        rr.outcome matches RepoOutcome::Fail { remediations, .. } && remediations == *rems,
    ensures
        j@ == job_for(*p, *rr, prefix@),
{
    let mut branch = String::new();
    branch.append(prefix);
    branch.append("/");
    branch.append(p.policy_name.as_str());
    let mut title = String::new();
    title.append("policy(");
    title.append(p.policy_name.as_str());
    title.append("): apply remediations");
    let description = match &p.description {
        Some(d) => Some(d.as_str()),
        None => None,
    };
    let body = generate_pr_body_attributed(
        p.policy_name.as_str(),
        description,
        p.severity,
        rr.repo_name.as_str(),
        rems,
    );
    let changes = collect_changes(rems);
    let j = PrJob {
        repo_name: rr.repo_name.clone(),
        policy_name: p.policy_name.clone(),
        branch,
        base: rr.default_branch.clone(),
        title,
        body,
        changes,
    };
    proof {
        assert(j.branch@ =~= prefix@ + "/"@ + p.policy_name@);
        assert(j.title@ =~= "policy("@ + p.policy_name@ + "): apply remediations"@);
        assert(j@ == job_for(*p, *rr, prefix@));
    }
    j
}

/// The PR jobs of a report: one per (repository, policy) whose failure carries a
/// file-changes remediation, in report order, on branch `{prefix}/{policy}`.
pub fn pr_jobs(report: &Report, prefix: &str) -> (jobs: Vec<PrJob>)
    ensures
        job_views(jobs@) == jobs_of_policies(report.results@, prefix@),
{
    let mut jobs: Vec<PrJob> = Vec::new();
    let ps = &report.results;
    proof { assert(job_views(jobs@) =~= Seq::empty()); }
    for i in 0..ps.len()
        invariant
            ps@ == report.results@,
            job_views(jobs@) == jobs_of_policies(ps@.take(i as int), prefix@),
    {
        proof { assert(ps@.take(i + 1).drop_last() =~= ps@.take(i as int)); }
        let p = &ps[i];
        let rs = &p.repo_results;
        let ghost before = job_views(jobs@);
        for j in 0..rs.len()
            invariant
                rs@ == p.repo_results@,
                job_views(jobs@) == before + jobs_of_results(*p, rs@.take(j as int), prefix@),
        {
            proof {
                assert(rs@.take(j + 1).drop_last() =~= rs@.take(j as int));
                assert(rs@.take(j + 1).last() == rs@[j as int]);
            }
            let rr = &rs[j];
            if let RepoOutcome::Fail { remediations, .. } = &rr.outcome {
                if has_file_changes_variant(remediations) {
                    let ghost old_jobs = jobs@;
                    let job = make_job(p, rr, remediations, prefix);
                    jobs.push(job);
                    proof {
                        assert(needs_pr(rr.outcome));
                        assert(job_views(jobs@) =~= job_views(old_jobs).push(job@));
                        assert(job_views(jobs@) =~= before + jobs_of_results(*p, rs@.take(j + 1), prefix@));
                    }
                }
            }
        }
        proof { assert(rs@.take(rs@.len() as int) =~= rs@); }
    }
    proof { assert(ps@.take(ps@.len() as int) =~= ps@); }
    jobs
}

/// How to handle one PR job, decided from the open-PR lookup.
#[derive(Debug)]
pub enum PrDecision {
    /// The lookup for an existing PR failed with this message.
    LookupFailed(String),
    /// An open PR exists and the strategy is to leave it alone.
    SkipExisting(PullRequest),
    /// An open PR exists and would be updated (dry run).
    PreviewUpdate(PullRequest),
    /// Push the changes to this open PR.
    Update(PullRequest),
    /// The `max_prs` budget is spent; no PR is created.
    Limited,
    /// A PR would be created (dry run).
    PreviewCreate,
    /// Create a new PR.
    Create,
}

/// The decision for a job, given the open-PR lookup, the existing-PR strategy,
/// whether this is a dry run, and how much of the PR budget is spent.
pub open spec fn spec_decide(
    lookup: Result<Option<PullRequest>, String>,
    strategy: ExistingPrStrategy,
    dry_run: bool,
    attempts: usize,
    max_prs: usize,
) -> PrDecision {
    match lookup {
        Err(e) => PrDecision::LookupFailed(e),
        Ok(Some(pr)) if strategy == ExistingPrStrategy::Skip => PrDecision::SkipExisting(pr),
        Ok(Some(pr)) if strategy == ExistingPrStrategy::Update => if dry_run {
            PrDecision::PreviewUpdate(pr)
        } else {
            PrDecision::Update(pr)
        },
        _ => if attempts >= max_prs {
            PrDecision::Limited
        } else if dry_run {
            PrDecision::PreviewCreate
        } else {
            PrDecision::Create
        },
    }
}

/// Everything the apply phase has done so far.
pub struct LedgerView {
    pub created: Seq<PrAction>,
    pub updated: Seq<PrAction>,
    pub skipped: Seq<PrAction>,
    pub errored: Seq<PrAction>,
    pub limited: nat,
    pub attempts: nat,
    pub settings_applied: Seq<SettingsAction>,
    pub settings_errored: Seq<SettingsAction>,
    pub protection_applied: Seq<BranchProtectionAction>,
    pub protection_errored: Seq<BranchProtectionAction>,
    pub autolinks_applied: Seq<AutolinkAction>,
    pub autolinks_errored: Seq<AutolinkAction>,
}

/// The record of a PR action for a job.
pub open spec fn action_for(job: PrJob, pr: Option<PullRequest>, kind: PrActionKind, error: Option<String>) -> PrAction {
    PrAction {
        repo_name: job.repo_name,
        policy_name: job.policy_name,
        branch: job.branch,
        pr,
        action: kind,
        error,
    }
}

/// The ledger after a job was handled by `decision`, with the provider's `outcome`
/// for the update/create calls.
pub open spec fn pr_step(
    v: LedgerView,
    job: PrJob,
    decision: PrDecision,
    outcome: Option<Result<PullRequest, String>>,
) -> LedgerView {
    match decision {
        PrDecision::LookupFailed(e) => LedgerView {
            errored: v.errored.push(action_for(job, None, PrActionKind::Error, Some(e))),
            ..v
        },
        PrDecision::SkipExisting(pr) => LedgerView {
            skipped: v.skipped.push(action_for(job, Some(pr), PrActionKind::Skipped, None)),
            ..v
        },
        PrDecision::PreviewUpdate(pr) => LedgerView {
            updated: v.updated.push(action_for(job, Some(pr), PrActionKind::DryRun, None)),
            ..v
        },
        PrDecision::Update(pr) => match outcome {
            Some(Ok(updated)) => LedgerView {
                updated: v.updated.push(action_for(job, Some(updated), PrActionKind::Updated, None)),
                ..v
            },
            Some(Err(e)) => LedgerView {
                errored: v.errored.push(action_for(job, Some(pr), PrActionKind::Error, Some(e))),
                ..v
            },
            None => v,
        },
        PrDecision::Limited => LedgerView { limited: v.limited + 1, ..v },
        PrDecision::PreviewCreate => LedgerView {
            created: v.created.push(action_for(job, None, PrActionKind::DryRun, None)),
            attempts: v.attempts + 1,
            ..v
        },
        PrDecision::Create => match outcome {
            Some(Ok(pr)) => LedgerView {
                created: v.created.push(action_for(job, Some(pr), PrActionKind::Created, None)),
                attempts: v.attempts + 1,
                ..v
            },
            Some(Err(e)) => LedgerView {
                errored: v.errored.push(action_for(job, None, PrActionKind::Error, Some(e))),
                attempts: v.attempts + 1,
                ..v
            },
            None => LedgerView { attempts: v.attempts + 1, ..v },
        },
    }
}

/// The ledger after a planned settings update was recorded: a preview in a dry run,
/// otherwise applied or errored according to the provider's `outcome`.
pub open spec fn settings_step(v: LedgerView, dry_run: bool, planned: SettingsAction, outcome: Result<(), String>) -> LedgerView {
    if dry_run {
        LedgerView {
            settings_applied: v.settings_applied.push(
                SettingsAction { action: SettingsActionKind::DryRun, error: None, ..planned },
            ),
            ..v
        }
    } else {
        match outcome {
            Ok(()) => LedgerView {
                settings_applied: v.settings_applied.push(
                    SettingsAction { action: SettingsActionKind::Applied, error: None, ..planned },
                ),
                ..v
            },
            Err(e) => LedgerView {
                settings_errored: v.settings_errored.push(
                    SettingsAction { action: SettingsActionKind::Error, error: Some(e), ..planned },
                ),
                ..v
            },
        }
    }
}

/// The ledger after a planned branch-protection update was recorded: a preview in a dry
/// run, otherwise applied or errored according to the provider's `outcome`.
pub open spec fn protection_step(v: LedgerView, dry_run: bool, planned: BranchProtectionAction, outcome: Result<(), String>) -> LedgerView {
    if dry_run {
        LedgerView {
            protection_applied: v.protection_applied.push(
                BranchProtectionAction { action: SettingsActionKind::DryRun, error: None, ..planned },
            ),
            ..v
        }
    } else {
        match outcome {
            Ok(()) => LedgerView {
                protection_applied: v.protection_applied.push(
                    BranchProtectionAction { action: SettingsActionKind::Applied, error: None, ..planned },
                ),
                ..v
            },
            Err(e) => LedgerView {
                protection_errored: v.protection_errored.push(
                    BranchProtectionAction { action: SettingsActionKind::Error, error: Some(e), ..planned },
                ),
                ..v
            },
        }
    }
}

/// The ledger after a planned autolink update was recorded: a preview in a dry run,
/// otherwise applied or errored according to the provider's `outcome`.
pub open spec fn autolink_step(v: LedgerView, dry_run: bool, planned: AutolinkAction, outcome: Result<(), String>) -> LedgerView {
    if dry_run {
        LedgerView {
            autolinks_applied: v.autolinks_applied.push(AutolinkAction { action: SettingsActionKind::DryRun, error: None, ..planned }),
            ..v
        }
    } else {
        match outcome {
            Ok(()) => LedgerView {
                autolinks_applied: v.autolinks_applied.push(AutolinkAction { action: SettingsActionKind::Applied, error: None, ..planned }),
                ..v
            },
            Err(e) => LedgerView {
                autolinks_errored: v.autolinks_errored.push(AutolinkAction { action: SettingsActionKind::Error, error: Some(e), ..planned }),
                ..v
            },
        }
    }
}

/// How an autolink is brought in line with what a policy wants, given the links the
/// repository has: nothing when one already matches; otherwise a link on the same key prefix
/// (the first) is deleted, and the wanted link is created.
#[derive(Debug, Clone, Copy, PartialEq, Eq, Structural)]
pub struct AutolinkFix {
    /// The id of the drifted link to delete first, if any.
    pub delete: Option<u64>,
    /// Whether the wanted link is to be created.
    pub create: bool,
}

/// The first link among `links` on key prefix `prefix`, if any.
pub open spec fn first_on_prefix(links: Seq<Autolink>, prefix: Seq<char>) -> Option<Autolink>
    decreases links.len(),
{
    if links.len() == 0 {
        None
    } else {
        match first_on_prefix(links.drop_last(), prefix) {
            Some(a) => Some(a),
            None => if links.last().key_prefix@ == prefix { Some(links.last()) } else { None },
        }
    }
}

/// What bringing the wanted autolink `spec` about takes, given the repository's `links`.
pub open spec fn spec_autolink_fix(links: Seq<Autolink>, spec: AutolinkSpec) -> AutolinkFix {
    if exists|i: int| 0 <= i < links.len() && (#[trigger] links[i]).spec_matches(spec) {
        AutolinkFix { delete: None, create: false }
    } else {
        match first_on_prefix(links, spec.key_prefix@) {
            Some(a) => AutolinkFix { delete: Some(a.id), create: true },
            None => AutolinkFix { delete: None, create: true },
        }
    }
}

proof fn lemma_first_on_prefix_prefix(links: Seq<Autolink>, prefix: Seq<char>, n: int)
    requires
        0 <= n <= links.len(),
        first_on_prefix(links.take(n), prefix) is Some,
    ensures
        first_on_prefix(links, prefix) == first_on_prefix(links.take(n), prefix),
    decreases links.len() - n,
{
    if n < links.len() {
        assert(links.take(n + 1).drop_last() =~= links.take(n));
        lemma_first_on_prefix_prefix(links, prefix, n + 1);
    } else {
        assert(links.take(n) =~= links);
    }
}

/// Decide how to bring the wanted autolink about on a repository with `links` (see
/// [`spec_autolink_fix`]).
pub fn autolink_fix(links: &Vec<Autolink>, spec: &AutolinkSpec) -> (f: AutolinkFix)
    ensures
        f == spec_autolink_fix(links@, *spec),
{
    let mut i: usize = 0;
    while i < links.len()
        invariant
            i <= links@.len(),
            forall|j: int| 0 <= j < i ==> !(#[trigger] links@[j]).spec_matches(*spec),
        decreases links@.len() - i,
    {
        if links[i].matches(spec) {
            return AutolinkFix { delete: None, create: false };
        }
        i = i + 1;
    }
    let mut k: usize = 0;
    while k < links.len()
        invariant
            k <= links@.len(),
            forall|j: int| 0 <= j < links@.len() ==> !(#[trigger] links@[j]).spec_matches(*spec),
            first_on_prefix(links@.take(k as int), spec.key_prefix@) is None,
        decreases links@.len() - k,
    {
        proof { assert(links@.take(k + 1).drop_last() =~= links@.take(k as int)); }
        if str_eq(links[k].key_prefix.as_str(), spec.key_prefix.as_str()) {
            proof { lemma_first_on_prefix_prefix(links@, spec.key_prefix@, k + 1); }
            return AutolinkFix { delete: Some(links[k].id), create: true };
        }
        k = k + 1;
    }
    proof { assert(links@.take(links@.len() as int) =~= links@); }
    AutolinkFix { delete: None, create: true }
}

/// The apply phase's bookkeeping: the options it runs with and every action taken.
///
/// The driver hands each [`PrJob`] to [`ApplyLedger::decide`], performs the
/// provider call the decision asks for (if any), and hands the result back to
/// [`ApplyLedger::record`]; likewise for planned settings and branch protection.
#[derive(Debug)]
pub struct ApplyLedger {
    pub dry_run: bool,
    pub max_prs: usize,
    pub strategy: ExistingPrStrategy,
    pub prs_created: Vec<PrAction>,
    pub prs_updated: Vec<PrAction>,
    pub prs_skipped: Vec<PrAction>,
    pub prs_errored: Vec<PrAction>,
    pub prs_limited: usize,
    /// PR creations attempted (including dry-run previews and failed calls).
    pub attempts: usize,
    pub settings_applied: Vec<SettingsAction>,
    pub settings_errored: Vec<SettingsAction>,
    pub branch_protection_applied: Vec<BranchProtectionAction>,
    pub branch_protection_errored: Vec<BranchProtectionAction>,
    pub autolinks_applied: Vec<AutolinkAction>,
    pub autolinks_errored: Vec<AutolinkAction>,
}

impl View for ApplyLedger {
    type V = LedgerView;

    open spec fn view(&self) -> LedgerView {
        LedgerView {
            created: self.prs_created@,
            updated: self.prs_updated@,
            skipped: self.prs_skipped@,
            errored: self.prs_errored@,
            limited: self.prs_limited as nat,
            attempts: self.attempts as nat,
            settings_applied: self.settings_applied@,
            settings_errored: self.settings_errored@,
            protection_applied: self.branch_protection_applied@,
            protection_errored: self.branch_protection_errored@,
            autolinks_applied: self.autolinks_applied@,
            autolinks_errored: self.autolinks_errored@,
        }
    }
}

/// The branch prefix and existing-PR strategy a config asks for:
/// `defaults.apply` when present, else `multipush` and `Update`.
pub fn apply_options(config: &RootConfig) -> (res: (String, ExistingPrStrategy))
    ensures
        match config.defaults {
            Some(d) => match d.apply {
                Some(a) => res.0@ == a.pr_prefix@ && res.1 == a.existing_pr,
                None => res.0@ == "multipush"@ && res.1 == ExistingPrStrategy::Update,
            },
            None => res.0@ == "multipush"@ && res.1 == ExistingPrStrategy::Update,
        },
{
    match &config.defaults {
        Some(d) => match &d.apply {
            Some(a) => (a.pr_prefix.clone(), a.existing_pr),
            None => ("multipush".to_owned(), ExistingPrStrategy::Update),
        },
        None => ("multipush".to_owned(), ExistingPrStrategy::Update),
    }
}

impl ApplyLedger {
    /// The budget is never overspent.
    pub open spec fn wf(&self) -> bool {
        self.attempts <= self.max_prs
    }

    /// An empty ledger for a run with these options.
    pub fn new(dry_run: bool, max_prs: usize, strategy: ExistingPrStrategy) -> (l: Self)
        ensures
            l.wf(),
            l.dry_run == dry_run,
            l.max_prs == max_prs,
            l.strategy == strategy,
            l@.created.len() == 0 && l@.updated.len() == 0 && l@.skipped.len() == 0,
            l@.errored.len() == 0 && l@.limited == 0 && l@.attempts == 0,
            l@.settings_applied.len() == 0 && l@.settings_errored.len() == 0,
            l@.protection_applied.len() == 0 && l@.protection_errored.len() == 0,
            l@.autolinks_applied.len() == 0 && l@.autolinks_errored.len() == 0,
    {
        ApplyLedger {
            dry_run,
            max_prs,
            strategy,
            prs_created: Vec::new(),
            prs_updated: Vec::new(),
            prs_skipped: Vec::new(),
            prs_errored: Vec::new(),
            prs_limited: 0,
            attempts: 0,
            settings_applied: Vec::new(),
            settings_errored: Vec::new(),
            branch_protection_applied: Vec::new(),
            branch_protection_errored: Vec::new(),
            autolinks_applied: Vec::new(),
            autolinks_errored: Vec::new(),
        }
    }

    /// Decide what to do with the next job, from the open-PR lookup on its branch.
    pub fn decide(&self, lookup: Result<Option<PullRequest>, String>) -> (d: PrDecision)
        ensures
            d == spec_decide(lookup, self.strategy, self.dry_run, self.attempts, self.max_prs),
    {
        match lookup {
            Err(e) => PrDecision::LookupFailed(e),
            Ok(Some(pr)) => match self.strategy {
                ExistingPrStrategy::Skip => PrDecision::SkipExisting(pr),
                ExistingPrStrategy::Update => if self.dry_run {
                    PrDecision::PreviewUpdate(pr)
                } else {
                    PrDecision::Update(pr)
                },
                ExistingPrStrategy::Recreate => self.decide_create(),
            },
            Ok(None) => self.decide_create(),
        }
    }

    fn decide_create(&self) -> (d: PrDecision)
        ensures
            d == (if self.attempts >= self.max_prs {
                PrDecision::Limited
            } else if self.dry_run {
                PrDecision::PreviewCreate
            } else {
                PrDecision::Create
            }),
    {
        if self.attempts >= self.max_prs {
            PrDecision::Limited
        } else if self.dry_run {
            PrDecision::PreviewCreate
        } else {
            PrDecision::Create
        }
    }

    /// Record how a job was handled. `outcome` is the provider's answer to the
    /// update or create call that an `Update` or `Create` decision asked for.
    pub fn record(&mut self, job: &PrJob, decision: PrDecision, outcome: Option<Result<PullRequest, String>>)
        requires
            old(self).wf(),
            decision is Limited ==> old(self).prs_limited < usize::MAX,
            decision is Create || decision is PreviewCreate ==> old(self).attempts < old(self).max_prs,
        ensures
            final(self).wf(),
            final(self).dry_run == old(self).dry_run,
            final(self).max_prs == old(self).max_prs,
            final(self).strategy == old(self).strategy,
            final(self)@ == pr_step(old(self)@, *job, decision, outcome),
    {
        match decision {
            PrDecision::LookupFailed(e) => {
                self.prs_errored.push(self.action(job, None, PrActionKind::Error, Some(e)));
            },
            PrDecision::SkipExisting(pr) => {
                self.prs_skipped.push(self.action(job, Some(pr), PrActionKind::Skipped, None));
            },
            PrDecision::PreviewUpdate(pr) => {
                self.prs_updated.push(self.action(job, Some(pr), PrActionKind::DryRun, None));
            },
            PrDecision::Update(pr) => match outcome {
                Some(Ok(updated)) => {
                    self.prs_updated.push(self.action(job, Some(updated), PrActionKind::Updated, None));
                },
                Some(Err(e)) => {
                    self.prs_errored.push(self.action(job, Some(pr), PrActionKind::Error, Some(e)));
                },
                None => {},
            },
            PrDecision::Limited => {
                self.prs_limited = self.prs_limited + 1;
            },
            PrDecision::PreviewCreate => {
                self.prs_created.push(self.action(job, None, PrActionKind::DryRun, None));
                self.attempts = self.attempts + 1;
            },
            PrDecision::Create => {
                match outcome {
                    Some(Ok(pr)) => {
                        self.prs_created.push(self.action(job, Some(pr), PrActionKind::Created, None));
                    },
                    Some(Err(e)) => {
                        self.prs_errored.push(self.action(job, None, PrActionKind::Error, Some(e)));
                    },
                    None => {},
                }
                self.attempts = self.attempts + 1;
            },
        }
    }

    fn action(&self, job: &PrJob, pr: Option<PullRequest>, kind: PrActionKind, error: Option<String>) -> (a: PrAction)
        ensures
            a == action_for(*job, pr, kind, error),
    {
        PrAction {
            repo_name: job.repo_name.clone(),
            policy_name: job.policy_name.clone(),
            branch: job.branch.clone(),
            pr,
            action: kind,
            error,
        }
    }

    /// Whether planned settings and branch-protection updates are sent to the provider:
    /// never in a dry run, which only records them.
    pub fn sends_updates(&self) -> (b: bool)
        ensures
            b == !self.dry_run,
    {
        !self.dry_run
    }

    /// Record a planned settings update: a preview in a dry run, otherwise applied
    /// or errored according to the provider's `outcome`.
    pub fn record_settings(&mut self, planned: SettingsAction, outcome: Result<(), String>)
        ensures
            final(self).wf() == old(self).wf(),
            final(self).dry_run == old(self).dry_run,
            final(self).max_prs == old(self).max_prs,
            final(self).strategy == old(self).strategy,
            final(self)@ == settings_step(old(self)@, old(self).dry_run, planned, outcome),
    {
        let mut a = planned;
        if self.dry_run {
            a.action = SettingsActionKind::DryRun;
            a.error = None;
            self.settings_applied.push(a);
        } else {
            match outcome {
                Ok(()) => {
                    a.action = SettingsActionKind::Applied;
                    a.error = None;
                    self.settings_applied.push(a);
                },
                Err(e) => {
                    a.action = SettingsActionKind::Error;
                    a.error = Some(e);
                    self.settings_errored.push(a);
                },
            }
        }
    }

    /// Record a planned branch-protection update: a preview in a dry run, otherwise
    /// applied or errored according to the provider's `outcome`.
    pub fn record_protection(&mut self, planned: BranchProtectionAction, outcome: Result<(), String>)
        ensures
            final(self).wf() == old(self).wf(),
            final(self).dry_run == old(self).dry_run,
            final(self).max_prs == old(self).max_prs,
            final(self).strategy == old(self).strategy,
            final(self)@ == protection_step(old(self)@, old(self).dry_run, planned, outcome),
    {
        let mut a = planned;
        if self.dry_run {
            a.action = SettingsActionKind::DryRun;
            a.error = None;
            self.branch_protection_applied.push(a);
        } else {
            match outcome {
                Ok(()) => {
                    a.action = SettingsActionKind::Applied;
                    a.error = None;
                    self.branch_protection_applied.push(a);
                },
                Err(e) => {
                    a.action = SettingsActionKind::Error;
                    a.error = Some(e);
                    self.branch_protection_errored.push(a);
                },
            }
        }
    }

    /// Record a planned autolink update: a preview in a dry run, otherwise applied or
    /// errored according to the provider's `outcome`.
    pub fn record_autolink(&mut self, planned: AutolinkAction, outcome: Result<(), String>)
        ensures
            final(self).wf() == old(self).wf(),
            final(self).dry_run == old(self).dry_run,
            final(self).max_prs == old(self).max_prs,
            final(self).strategy == old(self).strategy,
            final(self)@ == autolink_step(old(self)@, old(self).dry_run, planned, outcome),
    {
        let mut a = planned;
        if self.dry_run {
            a.action = SettingsActionKind::DryRun;
            a.error = None;
            self.autolinks_applied.push(a);
        } else {
            match outcome {
                Ok(()) => {
                    a.action = SettingsActionKind::Applied;
                    a.error = None;
                    self.autolinks_applied.push(a);
                },
                Err(e) => {
                    a.action = SettingsActionKind::Error;
                    a.error = Some(e);
                    self.autolinks_errored.push(a);
                },
            }
        }
    }

    /// Close the ledger into the apply report for `report`.
    pub fn finish(self, report: Report) -> (r: ApplyReport)
        ensures
            r.report == report,
            r.prs_created@ == self@.created,
            r.prs_updated@ == self@.updated,
            r.prs_skipped@ == self@.skipped,
            r.prs_errored@ == self@.errored,
            r.prs_limited == self.prs_limited,
            r.settings_applied@ == self@.settings_applied,
            r.settings_errored@ == self@.settings_errored,
            r.branch_protection_applied@ == self@.protection_applied,
            r.branch_protection_errored@ == self@.protection_errored,
            r.autolinks_applied@ == self@.autolinks_applied,
            r.autolinks_errored@ == self@.autolinks_errored,
    {
        ApplyReport {
            report,
            prs_created: self.prs_created,
            prs_updated: self.prs_updated,
            prs_skipped: self.prs_skipped,
            prs_errored: self.prs_errored,
            prs_limited: self.prs_limited,
            settings_applied: self.settings_applied,
            settings_errored: self.settings_errored,
            branch_protection_applied: self.branch_protection_applied,
            branch_protection_errored: self.branch_protection_errored,
            autolinks_applied: self.autolinks_applied,
            autolinks_errored: self.autolinks_errored,
        }
    }
}


/// The number of jobs a ledger has accounted for: every recorded action and every job held
/// back by the budget.
pub open spec fn handled(v: LedgerView) -> nat {
    v.created.len() + v.updated.len() + v.skipped.len() + v.errored.len() + v.limited
}

/// A dry run never asks the provider to change anything: no PR is updated or created.
pub proof fn law_dry_run_changes_nothing(
    lookup: Result<Option<PullRequest>, String>,
    strategy: ExistingPrStrategy,
    attempts: usize,
    max_prs: usize,
)
    ensures
        !(spec_decide(lookup, strategy, true, attempts, max_prs) is Update),
        !(spec_decide(lookup, strategy, true, attempts, max_prs) is Create),
{
}

/// With the `skip` strategy an open PR on the branch is left as it is.
pub proof fn law_skip_keeps_open_pr(pr: PullRequest, dry_run: bool, attempts: usize, max_prs: usize)
    ensures
        spec_decide(Ok(Some(pr)), ExistingPrStrategy::Skip, dry_run, attempts, max_prs) == PrDecision::SkipExisting(pr),
{
}

/// With the `update` strategy an open PR on the branch is updated in place (or previewed in a
/// dry run): re-running apply never opens a second PR for the same branch.
pub proof fn law_update_reuses_open_pr(pr: PullRequest, dry_run: bool, attempts: usize, max_prs: usize)
    ensures
        spec_decide(Ok(Some(pr)), ExistingPrStrategy::Update, dry_run, attempts, max_prs) == if dry_run {
            PrDecision::PreviewUpdate(pr)
        } else {
            PrDecision::Update(pr)
        },
{
}

/// The PR budget holds: a creation (or its preview) is decided only while fewer than
/// `max_prs` have been attempted, so a ledger that starts within budget stays within it.
pub proof fn law_budget_respected(
    v: LedgerView,
    job: PrJob,
    lookup: Result<Option<PullRequest>, String>,
    strategy: ExistingPrStrategy,
    dry_run: bool,
    max_prs: usize,
    outcome: Option<Result<PullRequest, String>>,
)
    requires
        v.attempts <= max_prs,
    ensures
        pr_step(v, job, spec_decide(lookup, strategy, dry_run, v.attempts as usize, max_prs), outcome).attempts <= max_prs,
{
}

/// Every job is accounted for exactly once: handling a job adds one action to one list, or
/// one to the count held back by the budget (given the provider's answer for a call the
/// decision asked for).
pub proof fn law_each_job_accounted_once(
    v: LedgerView,
    job: PrJob,
    decision: PrDecision,
    outcome: Option<Result<PullRequest, String>>,
)
    requires
        decision is Update || decision is Create ==> outcome is Some,
    ensures
        handled(pr_step(v, job, decision, outcome)) == handled(v) + 1,
{
}


/// The owner part of a full name: everything before the first `/` (all of it when there is none).
pub open spec fn owner_part(full: Seq<char>) -> Seq<char> {
    match find_from(full, seq!['/'], 0) {
        Some(i) => full.subrange(0, i),
        None => full,
    }
}

/// The name part of a full name: everything after the first `/` (empty when there is none).
pub open spec fn name_part(full: Seq<char>) -> Seq<char> {
    match find_from(full, seq!['/'], 0) {
        Some(i) => full.subrange(i + 1, full.len() as int),
        None => Seq::empty(),
    }
}

/// The repository record the apply phase works with, rebuilt from a result's full name and
/// default branch: not archived, private, no topics, language or custom properties.
pub fn build_repo(full_name: &str, default_branch: &str) -> (r: Repo)
    ensures
        r.full_name@ == full_name@,
        r.owner@ == owner_part(full_name@),
        r.name@ == name_part(full_name@),
        r.default_branch@ == default_branch@,
        !r.archived,
        r.visibility == Visibility::Private,
        r.topics@.len() == 0,
        r.language is None,
        r.custom_properties@.len() == 0,
{
    proof {
        reveal_strlit("/");
        assert("/"@ =~= seq!['/']);
    }
    let (owner, name) = match find_str(full_name, "/") {
        Some(i) => (full_name.substring_char(0, i).to_owned(), tail_str(full_name, i + 1).to_owned()),
        None => (full_name.to_owned(), String::new()),
    };
    Repo {
        owner,
        name,
        full_name: full_name.to_owned(),
        default_branch: default_branch.to_owned(),
        archived: false,
        visibility: Visibility::Private,
        topics: Vec::new(),
        language: None,
        custom_properties: Vec::new(),
    }
}


/// The default branch of the first result for repository `name` among `rs`, if any.
pub open spec fn first_branch_in(rs: Seq<RepoResult>, name: Seq<char>) -> Option<Seq<char>>
    decreases rs.len(),
{
    if rs.len() == 0 {
        None
    } else {
        match first_branch_in(rs.drop_last(), name) {
            Some(b) => Some(b),
            None => if rs.last().repo_name@ == name { Some(rs.last().default_branch@) } else { None },
        }
    }
}

/// The default branch of the first result for repository `name`, policy by policy.
pub open spec fn first_default_branch(ps: Seq<PolicyReport>, name: Seq<char>) -> Option<Seq<char>>
    decreases ps.len(),
{
    if ps.len() == 0 {
        None
    } else {
        match first_default_branch(ps.drop_last(), name) {
            Some(b) => Some(b),
            None => first_branch_in(ps.last().repo_results@, name),
        }
    }
}

proof fn lemma_first_branch_prefix(rs: Seq<RepoResult>, name: Seq<char>, n: int)
    requires
        0 <= n <= rs.len(),
        first_branch_in(rs.take(n), name) is Some,
    ensures
        first_branch_in(rs, name) == first_branch_in(rs.take(n), name),
    decreases rs.len() - n,
{
    if n < rs.len() {
        assert(rs.take(n + 1).drop_last() =~= rs.take(n));
        lemma_first_branch_prefix(rs, name, n + 1);
    } else {
        assert(rs.take(n) =~= rs);
    }
}

proof fn lemma_first_default_prefix(ps: Seq<PolicyReport>, name: Seq<char>, n: int)
    requires
        0 <= n <= ps.len(),
        first_default_branch(ps.take(n), name) is Some,
    ensures
        first_default_branch(ps, name) == first_default_branch(ps.take(n), name),
    decreases ps.len() - n,
{
    if n < ps.len() {
        assert(ps.take(n + 1).drop_last() =~= ps.take(n));
        lemma_first_default_prefix(ps, name, n + 1);
    } else {
        assert(ps.take(n) =~= ps);
    }
}

fn branch_in(rs: &Vec<RepoResult>, name: &str) -> (r: Option<String>)
    ensures
        match r {
            Some(b) => first_branch_in(rs@, name@) == Some(b@),
            None => first_branch_in(rs@, name@) is None,
        },
{
    for j in 0..rs.len()
        invariant
            first_branch_in(rs@.take(j as int), name@) is None,
    {
        proof { assert(rs@.take(j + 1).drop_last() =~= rs@.take(j as int)); }
        if str_eq(rs[j].repo_name.as_str(), name) {
            proof { lemma_first_branch_prefix(rs@, name@, j + 1); }
            return Some(rs[j].default_branch.clone());
        }
    }
    proof { assert(rs@.take(rs@.len() as int) =~= rs@); }
    None
}

/// The default branch a check report records for repository `name`: that of its first
/// result, policy by policy; `None` when no result is for that repository.
pub fn default_branch_of(report: &Report, name: &str) -> (r: Option<String>)
    ensures
        match r {
            Some(b) => first_default_branch(report.results@, name@) == Some(b@),
            None => first_default_branch(report.results@, name@) is None,
        },
{
    let ps = &report.results;
    for i in 0..ps.len()
        invariant
            ps@ == report.results@,
            first_default_branch(ps@.take(i as int), name@) is None,
    {
        proof { assert(ps@.take(i + 1).drop_last() =~= ps@.take(i as int)); }
        if let Some(b) = branch_in(&ps[i].repo_results, name) {
            proof { lemma_first_default_prefix(ps@, name@, i + 1); }
            return Some(b);
        }
    }
    proof { assert(ps@.take(ps@.len() as int) =~= ps@); }
    None
}

} // verus!
