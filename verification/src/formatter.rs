//! Check reports, their tallies, and the summary lines shared by every renderer.

use vstd::prelude::*;
use vstd::string::*;

use crate::engine::executor::{
    ApplyReport, BranchProtectionAction, PrAction, PrActionKind, SettingsAction, SettingsActionKind,
};
use crate::error::CoreError;
use crate::model::Severity;
use crate::rule::{AttributedRemediation, Remediation};
use crate::text::{dec, join, join_strings, lemma_lex_asymmetric, lemma_lex_irreflexive, lemma_lex_total, lemma_lex_transitive, lex_lt, str_eq, str_lt};

verus! {

/// Top-level check report containing per-policy results and an aggregate summary.
#[derive(Debug)]
pub struct Report {
    pub results: Vec<PolicyReport>,
    pub summary: Summary,
}

/// Results of evaluating a single policy across all targeted repositories.
#[derive(Debug)]
pub struct PolicyReport {
    pub policy_name: String,
    pub description: Option<String>,
    pub severity: Severity,
    pub repo_results: Vec<RepoResult>,
}

/// The evaluation result for one repository under one policy.
#[derive(Debug)]
pub struct RepoResult {
    pub repo_name: String,
    pub default_branch: String,
    pub outcome: RepoOutcome,
}

/// Aggregated outcome for a repository: pass, fail, skip, or error.
#[derive(Debug)]
pub enum RepoOutcome {
    Pass { detail: String },
    Fail { detail: String, remediations: Vec<AttributedRemediation> },
    Skip { reason: String },
    Error { message: String },
}

/// The four outcome kinds, without their payloads.
#[derive(Debug, Clone, Copy, PartialEq, Eq, Structural)]
pub enum OutcomeKind {
    Pass,
    Fail,
    Skip,
    Error,
}

impl RepoOutcome {
    /// The kind of the outcome.
    pub open spec fn spec_kind(self) -> OutcomeKind {
        match self {
            RepoOutcome::Pass { .. } => OutcomeKind::Pass,
            RepoOutcome::Fail { .. } => OutcomeKind::Fail,
            RepoOutcome::Skip { .. } => OutcomeKind::Skip,
            RepoOutcome::Error { .. } => OutcomeKind::Error,
        }
    }

    /// The kind of the outcome.
    pub fn kind(&self) -> (k: OutcomeKind)
        ensures
            k == self.spec_kind(),
    {
        match self {
            RepoOutcome::Pass { .. } => OutcomeKind::Pass,
            RepoOutcome::Fail { .. } => OutcomeKind::Fail,
            RepoOutcome::Skip { .. } => OutcomeKind::Skip,
            RepoOutcome::Error { .. } => OutcomeKind::Error,
        }
    }

    /// The text carried by the outcome (detail, reason or message).
    pub open spec fn spec_text(self) -> Seq<char> {
        match self {
            RepoOutcome::Pass { detail } => detail@,
            RepoOutcome::Fail { detail, .. } => detail@,
            RepoOutcome::Skip { reason } => reason@,
            RepoOutcome::Error { message } => message@,
        }
    }

    /// The text carried by the outcome (detail, reason or message).
    pub fn text(&self) -> (t: &str)
        ensures
            t@ == self.spec_text(),
    {
        match self {
            RepoOutcome::Pass { detail } => detail.as_str(),
            RepoOutcome::Fail { detail, .. } => detail.as_str(),
            RepoOutcome::Skip { reason } => reason.as_str(),
            RepoOutcome::Error { message } => message.as_str(),
        }
    }

    /// A failure with at least one remediation that would open a PR.
    pub open spec fn would_open_pr(self) -> bool {
        self matches RepoOutcome::Fail { remediations, .. } && exists|i: int|
            0 <= i < remediations@.len() && (#[trigger] remediations@[i]).remediation.opens_pr()
    }
}

/// Whether any remediation in the list opens a PR.
pub fn any_opens_pr(rems: &Vec<AttributedRemediation>) -> (b: bool)
    ensures
        b == exists|i: int| 0 <= i < rems@.len() && (#[trigger] rems@[i]).remediation.opens_pr(),
{
    for i in 0..rems.len()
        invariant
            forall|j: int| 0 <= j < i ==> !(#[trigger] rems@[j]).remediation.opens_pr(),
    {
        if rems[i].remediation.has_file_changes() {
            return true;
        }
    }
    false
}

/// Number of results in `rs` whose outcome has kind `k`.
pub open spec fn count_kind(rs: Seq<RepoResult>, k: OutcomeKind) -> nat
    decreases rs.len(),
{
    if rs.len() == 0 {
        0
    } else {
        count_kind(rs.drop_last(), k) + if rs.last().outcome.spec_kind() == k { 1nat } else { 0nat }
    }
}

/// Counting never exceeds the number of results.
pub proof fn lemma_count_kind_bound(rs: Seq<RepoResult>, k: OutcomeKind)
    ensures
        count_kind(rs, k) <= rs.len(),
    decreases rs.len(),
{
    if rs.len() > 0 {
        lemma_count_kind_bound(rs.drop_last(), k);
    }
}

/// The four counts add up to the number of results.
pub proof fn lemma_count_kinds_total(rs: Seq<RepoResult>)
    ensures
        count_kind(rs, OutcomeKind::Pass) + count_kind(rs, OutcomeKind::Fail) + count_kind(
            rs,
            OutcomeKind::Skip,
        ) + count_kind(rs, OutcomeKind::Error) == rs.len(),
    decreases rs.len(),
{
    if rs.len() > 0 {
        lemma_count_kinds_total(rs.drop_last());
    }
}

/// Aggregate counts across all repositories in a report.
#[derive(Debug, Clone, Copy, PartialEq, Eq, Structural)]
pub struct Summary {
    pub total_repos: usize,
    pub passing: usize,
    pub failing: usize,
    pub skipped: usize,
    pub errors: usize,
}

impl Default for Summary {
    fn default() -> (s: Self)
        ensures
            s == (Summary { total_repos: 0, passing: 0, failing: 0, skipped: 0, errors: 0 }),
    {
        Summary { total_repos: 0, passing: 0, failing: 0, skipped: 0, errors: 0 }
    }
}

impl Summary {
    /// Repos where a pass/fail judgement was actually reached (excludes skipped and errored).
    pub fn evaluated(&self) -> (n: usize)
        requires
            self.passing + self.failing <= usize::MAX,
        ensures
            n == self.passing + self.failing,
    {
        self.passing + self.failing
    }
}

/// Per-policy counts for the per-policy summary footer.
#[derive(Debug, Clone, Copy, PartialEq, Eq, Structural)]
pub struct PolicyCounts {
    pub passing: usize,
    pub failing: usize,
    pub skipped: usize,
    pub errors: usize,
}

impl PolicyCounts {
    /// Count the outcomes of one policy's results by kind.
    pub fn from_policy(policy: &PolicyReport) -> (c: Self)
        ensures
            c.passing == count_kind(policy.repo_results@, OutcomeKind::Pass),
            c.failing == count_kind(policy.repo_results@, OutcomeKind::Fail),
            c.skipped == count_kind(policy.repo_results@, OutcomeKind::Skip),
            c.errors == count_kind(policy.repo_results@, OutcomeKind::Error),
            c.passing + c.failing + c.skipped + c.errors == policy.repo_results@.len(),
    {
        let rs = &policy.repo_results;
        let mut c = PolicyCounts { passing: 0, failing: 0, skipped: 0, errors: 0 };
        for i in 0..rs.len()
            invariant
                c.passing == count_kind(rs@.take(i as int), OutcomeKind::Pass),
                c.failing == count_kind(rs@.take(i as int), OutcomeKind::Fail),
                c.skipped == count_kind(rs@.take(i as int), OutcomeKind::Skip),
                c.errors == count_kind(rs@.take(i as int), OutcomeKind::Error),
        {
            proof {
                assert(rs@.take(i + 1).drop_last() =~= rs@.take(i as int));
                lemma_count_kinds_total(rs@.take(i as int));
            }
            match rs[i].outcome.kind() {
                OutcomeKind::Pass => c.passing = c.passing + 1,
                OutcomeKind::Fail => c.failing = c.failing + 1,
                OutcomeKind::Skip => c.skipped = c.skipped + 1,
                OutcomeKind::Error => c.errors = c.errors + 1,
            }
        }
        proof {
            assert(rs@.take(rs@.len() as int) =~= rs@);
            lemma_count_kinds_total(rs@);
        }
        c
    }

    /// All outcomes counted.
    pub fn total(&self) -> (n: usize)
        requires
            self.passing + self.failing + self.skipped + self.errors <= usize::MAX,
        ensures
            n == self.passing + self.failing + self.skipped + self.errors,
    {
        self.passing + self.failing + self.skipped + self.errors
    }

    /// Outcomes with a pass/fail judgement.
    pub fn evaluated(&self) -> (n: usize)
        requires
            self.passing + self.failing <= usize::MAX,
        ensures
            n == self.passing + self.failing,
    {
        self.passing + self.failing
    }
}

/// The Action label of a check-mode row: what `apply` would do for this outcome.
pub open spec fn check_action(o: RepoOutcome) -> Seq<char> {
    match o {
        RepoOutcome::Fail { remediations, .. } => {
            let rs = remediations@;
            if rs.len() == 0 {
                "Report only"@
            } else if exists|i: int| 0 <= i < rs.len() && (#[trigger] rs[i]).remediation.opens_pr() {
                "Would create PR"@
            } else {
                let settings = exists|i: int| 0 <= i < rs.len() && (#[trigger] rs[i]).remediation is RepoSettings;
                let protection = exists|i: int| 0 <= i < rs.len() && (#[trigger] rs[i]).remediation is BranchProtection;
                let autolink = exists|i: int| 0 <= i < rs.len() && (#[trigger] rs[i]).remediation is Autolink;
                if settings && protection {
                    "Would update settings + protection"@
                } else if settings {
                    "Would update settings"@
                } else if protection {
                    "Would update protection"@
                } else if autolink {
                    "Would update autolinks"@
                } else {
                    "Report only"@
                }
            }
        },
        _ => "-"@,
    }
}

/// Compute the Action label for a single (repo, policy) row in a check table:
/// what `apply` would do, judged from the remediations the rules emitted.
/// A pending PR wins over API updates; a failure with nothing to apply is
/// `Report only`; other outcomes are `-`.
pub fn derive_check_action(outcome: &RepoOutcome) -> (s: String)
    ensures
        s@ == check_action(*outcome),
{
    let remediations = match outcome {
        RepoOutcome::Fail { remediations, .. } => remediations,
        _ => return "-".to_owned(),
    };
    if remediations.len() == 0 {
        return "Report only".to_owned();
    }
    let mut would_pr = false;
    let mut would_settings = false;
    let mut would_protection = false;
    let mut would_autolink = false;
    for i in 0..remediations.len()
        invariant
            would_pr == exists|j: int| 0 <= j < i && (#[trigger] remediations@[j]).remediation.opens_pr(),
            would_settings == exists|j: int| 0 <= j < i && (#[trigger] remediations@[j]).remediation is RepoSettings,
            would_protection == exists|j: int| 0 <= j < i && (#[trigger] remediations@[j]).remediation is BranchProtection,
            would_autolink == exists|j: int| 0 <= j < i && (#[trigger] remediations@[j]).remediation is Autolink,
    {
        let r = &remediations[i].remediation;
        if r.has_file_changes() {
            would_pr = true;
        }
        match r {
            Remediation::RepoSettings { .. } => would_settings = true,
            Remediation::BranchProtection { .. } => would_protection = true,
            Remediation::Autolink { .. } => would_autolink = true,
            Remediation::FileChanges { .. } => {},
        }
    }
    if would_pr {
        "Would create PR".to_owned()
    } else if would_settings && would_protection {
        "Would update settings + protection".to_owned()
    } else if would_settings {
        "Would update settings".to_owned()
    } else if would_protection {
        "Would update protection".to_owned()
    } else if would_autolink {
        "Would update autolinks".to_owned()
    } else {
        "Report only".to_owned()
    }
}

/// One row of the PR-action lookup of an apply report.
#[derive(Debug)]
pub struct PrActionEntry {
    pub repo_name: String,
    pub policy_name: String,
    pub label: String,
    pub url: String,
}

/// The label a PR action is shown with.
pub open spec fn action_label(k: PrActionKind) -> Seq<char> {
    match k {
        PrActionKind::Created => "PR created"@,
        PrActionKind::Updated => "PR updated"@,
        PrActionKind::Skipped => "Skipped (existing)"@,
        PrActionKind::DryRun => "Would create PR"@,
        PrActionKind::Error => "Error"@,
    }
}

/// The URL a PR action is shown with: the PR's, or `-` without one.
pub open spec fn action_url(a: PrAction) -> Seq<char> {
    match a.pr {
        Some(pr) => pr.url@,
        None => "-"@,
    }
}

/// The lookup rows for a list of actions, in order.
pub open spec fn entries_of(actions: Seq<PrAction>) -> Seq<(Seq<char>, Seq<char>, Seq<char>, Seq<char>)> {
    actions.map_values(|a: PrAction| (a.repo_name@, a.policy_name@, action_label(a.action), action_url(a)))
}

/// The content of lookup rows.
pub open spec fn entry_views(es: Seq<PrActionEntry>) -> Seq<(Seq<char>, Seq<char>, Seq<char>, Seq<char>)> {
    es.map_values(|e: PrActionEntry| (e.repo_name@, e.policy_name@, e.label@, e.url@))
}

/// The rows of the lookup: created, updated, skipped and errored actions, in that order.
pub open spec fn action_map_rows(r: ApplyReport) -> Seq<(Seq<char>, Seq<char>, Seq<char>, Seq<char>)> {
    entries_of(r.prs_created@) + entries_of(r.prs_updated@) + entries_of(r.prs_skipped@) + entries_of(r.prs_errored@)
}

fn push_entries(map: &mut Vec<PrActionEntry>, actions: &Vec<PrAction>)
    ensures
        entry_views(final(map)@) == entry_views(old(map)@) + entries_of(actions@),
{
    let ghost start = entry_views(map@);
    for i in 0..actions.len()
        invariant
            entry_views(map@) == start + entries_of(actions@.take(i as int)),
    {
        let a = &actions[i];
        let label = match a.action {
            PrActionKind::Created => "PR created",
            PrActionKind::Updated => "PR updated",
            PrActionKind::Skipped => "Skipped (existing)",
            PrActionKind::DryRun => "Would create PR",
            PrActionKind::Error => "Error",
        };
        let url = match &a.pr {
            Some(pr) => pr.url.clone(),
            None => "-".to_owned(),
        };
        let ghost before = map@;
        map.push(PrActionEntry {
            repo_name: a.repo_name.clone(),
            policy_name: a.policy_name.clone(),
            label: label.to_owned(),
            url,
        });
        proof {
            assert(entry_views(map@) =~= entry_views(before).push((a.repo_name@, a.policy_name@, action_label(a.action), action_url(*a))));
            assert(entries_of(actions@.take(i + 1)) =~= entries_of(actions@.take(i as int)).push((a.repo_name@, a.policy_name@, action_label(a.action), action_url(*a))));
        }
    }
    proof { assert(actions@.take(actions@.len() as int) =~= actions@); }
}

/// Build the lookup from (repo, policy) to (action label, PR URL) for an apply report.
/// When a key occurs more than once, the last row wins (see [`lookup_action`]).
pub fn build_pr_action_map(report: &ApplyReport) -> (map: Vec<PrActionEntry>)
    ensures
        entry_views(map@) == action_map_rows(*report),
{
    let mut map: Vec<PrActionEntry> = Vec::new();
    proof { assert(entry_views(map@) =~= Seq::empty()); }
    push_entries(&mut map, &report.prs_created);
    push_entries(&mut map, &report.prs_updated);
    push_entries(&mut map, &report.prs_skipped);
    push_entries(&mut map, &report.prs_errored);
    proof { assert(entry_views(map@) =~= action_map_rows(*report)); }
    map
}

/// The (label, url) of the last row for (repo, policy), if any.
pub open spec fn lookup_rows(
    rows: Seq<(Seq<char>, Seq<char>, Seq<char>, Seq<char>)>,
    repo: Seq<char>,
    policy: Seq<char>,
) -> Option<(Seq<char>, Seq<char>)>
    decreases rows.len(),
{
    if rows.len() == 0 {
        None
    } else if rows.last().0 == repo && rows.last().1 == policy {
        Some((rows.last().2, rows.last().3))
    } else {
        lookup_rows(rows.drop_last(), repo, policy)
    }
}

/// Find the (label, url) recorded last for (repo, policy).
pub fn lookup_action(map: &Vec<PrActionEntry>, repo_name: &str, policy_name: &str) -> (r: Option<(String, String)>)
    ensures
        match r {
            Some(p) => lookup_rows(entry_views(map@), repo_name@, policy_name@) == Some((p.0@, p.1@)),
            None => lookup_rows(entry_views(map@), repo_name@, policy_name@) is None,
        },
{
    let mut i = map.len();
    proof { assert(entry_views(map@).take(i as int) =~= entry_views(map@)); }
    while i > 0
        invariant
            i <= map@.len(),
            lookup_rows(entry_views(map@), repo_name@, policy_name@) == lookup_rows(
                entry_views(map@).take(i as int),
                repo_name@,
                policy_name@,
            ),
        decreases i,
    {
        proof { assert(entry_views(map@).take(i as int).drop_last() =~= entry_views(map@).take(i - 1)); }
        let e = &map[i - 1];
        if str_eq(e.repo_name.as_str(), repo_name) && str_eq(e.policy_name.as_str(), policy_name) {
            return Some((e.label.clone(), e.url.clone()));
        }
        i = i - 1;
    }
    proof { assert(entry_views(map@).take(0) =~= Seq::empty()); }
    None
}

/// The (action, PR URL) cells of an apply-table row.
pub open spec fn pr_action_cells(
    rows: Seq<(Seq<char>, Seq<char>, Seq<char>, Seq<char>)>,
    repo: Seq<char>,
    policy: Seq<char>,
    o: RepoOutcome,
) -> (Seq<char>, Seq<char>) {
    match lookup_rows(rows, repo, policy) {
        Some(p) => p,
        None => match o {
            RepoOutcome::Fail { remediations, .. } => if exists|i: int|
                0 <= i < remediations@.len() && (#[trigger] remediations@[i]).remediation.opens_pr() {
                ("Limited (max-prs)"@, "-"@)
            } else if remediations@.len() == 0 {
                ("Report only"@, "-"@)
            } else {
                ("-"@, "-"@)
            },
            _ => ("-"@, "-"@),
        },
    }
}

/// Compute the (action, PR URL) labels for one row of an apply table: the
/// recorded PR action when there is one; otherwise `Limited (max-prs)` for a
/// failure whose PR was held back by the budget, `Report only` for a failure
/// with no remediation, and `-` for anything else.
pub fn derive_pr_action(
    action_map: &Vec<PrActionEntry>,
    repo_name: &str,
    policy_name: &str,
    outcome: &RepoOutcome,
) -> (r: (String, String))
    ensures
        (r.0@, r.1@) == pr_action_cells(entry_views(action_map@), repo_name@, policy_name@, *outcome),
{
    if let Some(found) = lookup_action(action_map, repo_name, policy_name) {
        return found;
    }
    match outcome {
        RepoOutcome::Fail { remediations, .. } => {
            if any_opens_pr(remediations) {
                ("Limited (max-prs)".to_owned(), "-".to_owned())
            } else if remediations.len() == 0 {
                ("Report only".to_owned(), "-".to_owned())
            } else {
                ("-".to_owned(), "-".to_owned())
            }
        },
        _ => ("-".to_owned(), "-".to_owned()),
    }
}

/// `"{n}{label}"` as a one-element list when `n > 0`, nothing otherwise.
pub open spec fn count_part(n: nat, label: Seq<char>) -> Seq<Seq<char>> {
    if n > 0 { seq![dec(n) + label] } else { Seq::empty() }
}

/// A summary line: the parts joined with `, `, or `0 actions` when there are none.
pub open spec fn summary_line(parts: Seq<Seq<char>>) -> Seq<char> {
    if parts.len() == 0 { "0 actions"@ } else { join(parts, ", "@) }
}

fn push_count_part(parts: &mut Vec<String>, n: usize, label: &str)
    ensures
        final(parts).deep_view() == old(parts).deep_view() + count_part(n as nat, label@),
{
    if n > 0 {
        let mut s = crate::text::usize_to_string(n);
        s.append(label);
        let ghost before = parts.deep_view();
        parts.push(s);
        proof { assert(parts.deep_view() =~= before + count_part(n as nat, label@)); }
    } else {
        proof { assert(parts.deep_view() =~= parts.deep_view() + count_part(n as nat, label@)); }
    }
}

fn finish_summary(parts: &Vec<String>) -> (s: String)
    ensures
        s@ == summary_line(parts.deep_view()),
{
    if parts.len() == 0 {
        "0 actions".to_owned()
    } else {
        join_strings(parts, ", ")
    }
}

/// Number of PR actions of kind `k`.
pub open spec fn count_pr_kind(s: Seq<PrAction>, k: PrActionKind) -> nat
    decreases s.len(),
{
    if s.len() == 0 {
        0
    } else {
        count_pr_kind(s.drop_last(), k) + if s.last().action == k { 1nat } else { 0nat }
    }
}

fn count_pr_kind_exec(s: &Vec<PrAction>, k: PrActionKind) -> (n: usize)
    ensures
        n == count_pr_kind(s@, k),
{
    let mut n: usize = 0;
    for i in 0..s.len()
        invariant
            n == count_pr_kind(s@.take(i as int), k),
            n <= i,
    {
        proof { assert(s@.take(i + 1).drop_last() =~= s@.take(i as int)); }
        if s[i].action == k {
            n = n + 1;
        }
    }
    proof { assert(s@.take(s@.len() as int) =~= s@); }
    n
}

/// Number of settings actions of kind `k`.
pub open spec fn count_settings_kind(s: Seq<SettingsAction>, k: SettingsActionKind) -> nat
    decreases s.len(),
{
    if s.len() == 0 {
        0
    } else {
        count_settings_kind(s.drop_last(), k) + if s.last().action == k { 1nat } else { 0nat }
    }
}

fn count_settings_kind_exec(s: &Vec<SettingsAction>, k: SettingsActionKind) -> (n: usize)
    ensures
        n == count_settings_kind(s@, k),
{
    let mut n: usize = 0;
    for i in 0..s.len()
        invariant
            n == count_settings_kind(s@.take(i as int), k),
            n <= i,
    {
        proof { assert(s@.take(i + 1).drop_last() =~= s@.take(i as int)); }
        if s[i].action == k {
            n = n + 1;
        }
    }
    proof { assert(s@.take(s@.len() as int) =~= s@); }
    n
}

/// Number of branch-protection actions of kind `k`.
pub open spec fn count_protection_kind(s: Seq<BranchProtectionAction>, k: SettingsActionKind) -> nat
    decreases s.len(),
{
    if s.len() == 0 {
        0
    } else {
        count_protection_kind(s.drop_last(), k) + if s.last().action == k { 1nat } else { 0nat }
    }
}

fn count_protection_kind_exec(s: &Vec<BranchProtectionAction>, k: SettingsActionKind) -> (n: usize)
    ensures
        n == count_protection_kind(s@, k),
{
    let mut n: usize = 0;
    for i in 0..s.len()
        invariant
            n == count_protection_kind(s@.take(i as int), k),
            n <= i,
    {
        proof { assert(s@.take(i + 1).drop_last() =~= s@.take(i as int)); }
        if s[i].action == k {
            n = n + 1;
        }
    }
    proof { assert(s@.take(s@.len() as int) =~= s@); }
    n
}

/// The PR summary line of an apply report.
pub open spec fn pr_summary(r: ApplyReport) -> Seq<char> {
    summary_line(
        count_part(count_pr_kind(r.prs_created@, PrActionKind::Created), " created"@)
            + count_part(count_pr_kind(r.prs_created@, PrActionKind::DryRun), " would create"@)
            + count_part(count_pr_kind(r.prs_updated@, PrActionKind::Updated), " updated"@)
            + count_part(count_pr_kind(r.prs_updated@, PrActionKind::DryRun), " would update"@)
            + count_part(r.prs_skipped@.len(), " skipped"@)
            + count_part(r.prs_limited as nat, " limited (max-prs)"@)
            + count_part(r.prs_errored@.len(), " errored"@),
    )
}

/// Build the PR summary line for apply reports: created, would-create, updated,
/// would-update, skipped, limited and errored counts, listing only non-zero ones.
pub fn format_pr_summary(report: &ApplyReport) -> (s: String)
    ensures
        s@ == pr_summary(*report),
{
    let created = count_pr_kind_exec(&report.prs_created, PrActionKind::Created);
    let would_create = count_pr_kind_exec(&report.prs_created, PrActionKind::DryRun);
    let updated = count_pr_kind_exec(&report.prs_updated, PrActionKind::Updated);
    let would_update = count_pr_kind_exec(&report.prs_updated, PrActionKind::DryRun);
    let mut parts: Vec<String> = Vec::new();
    proof { assert(parts.deep_view() =~= Seq::<Seq<char>>::empty()); }
    push_count_part(&mut parts, created, " created");
    push_count_part(&mut parts, would_create, " would create");
    push_count_part(&mut parts, updated, " updated");
    push_count_part(&mut parts, would_update, " would update");
    push_count_part(&mut parts, report.prs_skipped.len(), " skipped");
    push_count_part(&mut parts, report.prs_limited, " limited (max-prs)");
    push_count_part(&mut parts, report.prs_errored.len(), " errored");
    proof {
        assert(parts.deep_view() =~= count_part(count_pr_kind(report.prs_created@, PrActionKind::Created), " created"@)
            + count_part(count_pr_kind(report.prs_created@, PrActionKind::DryRun), " would create"@)
            + count_part(count_pr_kind(report.prs_updated@, PrActionKind::Updated), " updated"@)
            + count_part(count_pr_kind(report.prs_updated@, PrActionKind::DryRun), " would update"@)
            + count_part(report.prs_skipped@.len(), " skipped"@)
            + count_part(report.prs_limited as nat, " limited (max-prs)"@)
            + count_part(report.prs_errored@.len(), " errored"@));
    }
    finish_summary(&parts)
}

/// The repo-settings summary line of an apply report.
pub open spec fn settings_summary(r: ApplyReport) -> Seq<char> {
    summary_line(
        count_part(count_settings_kind(r.settings_applied@, SettingsActionKind::Applied), " applied"@)
            + count_part(count_settings_kind(r.settings_applied@, SettingsActionKind::DryRun), " would apply"@)
            + count_part(r.settings_errored@.len(), " errored"@),
    )
}

/// Build the settings-action summary line for apply reports.
pub fn format_settings_summary(report: &ApplyReport) -> (s: String)
    ensures
        s@ == settings_summary(*report),
{
    let applied = count_settings_kind_exec(&report.settings_applied, SettingsActionKind::Applied);
    let would_apply = count_settings_kind_exec(&report.settings_applied, SettingsActionKind::DryRun);
    let mut parts: Vec<String> = Vec::new();
    proof { assert(parts.deep_view() =~= Seq::<Seq<char>>::empty()); }
    push_count_part(&mut parts, applied, " applied");
    push_count_part(&mut parts, would_apply, " would apply");
    push_count_part(&mut parts, report.settings_errored.len(), " errored");
    proof {
        assert(parts.deep_view() =~= count_part(count_settings_kind(report.settings_applied@, SettingsActionKind::Applied), " applied"@)
            + count_part(count_settings_kind(report.settings_applied@, SettingsActionKind::DryRun), " would apply"@)
            + count_part(report.settings_errored@.len(), " errored"@));
    }
    finish_summary(&parts)
}

/// The branch-protection summary line of an apply report.
pub open spec fn protection_summary(r: ApplyReport) -> Seq<char> {
    summary_line(
        count_part(count_protection_kind(r.branch_protection_applied@, SettingsActionKind::Applied), " applied"@)
            + count_part(count_protection_kind(r.branch_protection_applied@, SettingsActionKind::DryRun), " would apply"@)
            + count_part(r.branch_protection_errored@.len(), " errored"@),
    )
}

/// Build the branch-protection summary line for apply reports.
pub fn format_branch_protection_summary(report: &ApplyReport) -> (s: String)
    ensures
        s@ == protection_summary(*report),
{
    let applied = count_protection_kind_exec(&report.branch_protection_applied, SettingsActionKind::Applied);
    let would_apply = count_protection_kind_exec(&report.branch_protection_applied, SettingsActionKind::DryRun);
    let mut parts: Vec<String> = Vec::new();
    proof { assert(parts.deep_view() =~= Seq::<Seq<char>>::empty()); }
    push_count_part(&mut parts, applied, " applied");
    push_count_part(&mut parts, would_apply, " would apply");
    push_count_part(&mut parts, report.branch_protection_errored.len(), " errored");
    proof {
        assert(parts.deep_view() =~= count_part(count_protection_kind(report.branch_protection_applied@, SettingsActionKind::Applied), " applied"@)
            + count_part(count_protection_kind(report.branch_protection_applied@, SettingsActionKind::DryRun), " would apply"@)
            + count_part(report.branch_protection_errored@.len(), " errored"@));
    }
    finish_summary(&parts)
}

/// True if the apply report has any settings actions (applied, would-apply, or errored).
pub fn has_settings_actions(report: &ApplyReport) -> (b: bool)
    ensures
        b == (report.settings_applied@.len() > 0 || report.settings_errored@.len() > 0),
{
    report.settings_applied.len() > 0 || report.settings_errored.len() > 0
}

/// True if the apply report has any branch-protection actions.
pub fn has_branch_protection_actions(report: &ApplyReport) -> (b: bool)
    ensures
        b == (report.branch_protection_applied@.len() > 0 || report.branch_protection_errored@.len() > 0),
{
    report.branch_protection_applied.len() > 0 || report.branch_protection_errored.len() > 0
}

/// `N would apply`, or `0 actions` when nothing is planned.
pub open spec fn planned_line(n: nat) -> Seq<char> {
    if n == 0 { "0 actions"@ } else { dec(n) + " would apply"@ }
}

fn planned_line_exec(n: usize) -> (s: String)
    ensures
        s@ == planned_line(n as nat),
{
    if n == 0 {
        "0 actions".to_owned()
    } else {
        let mut s = crate::text::usize_to_string(n);
        s.append(" would apply");
        s
    }
}

/// Build a settings-summary line for check mode from the planned actions.
pub fn format_settings_summary_for_check(planned: &Vec<SettingsAction>) -> (s: String)
    ensures
        s@ == planned_line(planned@.len()),
{
    planned_line_exec(planned.len())
}

/// Build a branch-protection summary line for check mode from the planned actions.
pub fn format_branch_protection_summary_for_check(planned: &Vec<BranchProtectionAction>) -> (s: String)
    ensures
        s@ == planned_line(planned@.len()),
{
    planned_line_exec(planned.len())
}

/// Number of results, across all policies, that would open a PR.
pub open spec fn count_would_pr_results(rs: Seq<RepoResult>) -> nat
    decreases rs.len(),
{
    if rs.len() == 0 {
        0
    } else {
        count_would_pr_results(rs.drop_last()) + if rs.last().outcome.would_open_pr() { 1nat } else { 0nat }
    }
}

/// Number of (policy, repository) failures, across the report, that would open a PR.
pub open spec fn count_would_pr(ps: Seq<PolicyReport>) -> nat
    decreases ps.len(),
{
    if ps.len() == 0 {
        0
    } else {
        count_would_pr(ps.drop_last()) + count_would_pr_results(ps.last().repo_results@)
    }
}

/// The check-mode PR summary line.
pub open spec fn check_pr_summary(r: Report) -> Seq<char> {
    let n = count_would_pr(r.results@);
    if n == 0 { "0 actions"@ } else { dec(n) + " would create"@ }
}

/// Build the check-mode PR summary line: how many PRs `apply` would create,
/// counting each failing (repo, policy) with a remediation that changes files.
pub fn format_pr_summary_for_check(report: &Report) -> (s: String)
    requires
        count_would_pr(report.results@) <= usize::MAX,
    ensures
        s@ == check_pr_summary(*report),
{
    let mut n: usize = 0;
    let ps = &report.results;
    for i in 0..ps.len()
        invariant
            ps@ == report.results@,
            count_would_pr(ps@) <= usize::MAX,
            n == count_would_pr(ps@.take(i as int)),
    {
        proof {
            assert(ps@.take(i + 1).drop_last() =~= ps@.take(i as int));
            lemma_count_would_pr_prefix(ps@, i + 1);
        }
        let rs = &ps[i].repo_results;
        let ghost base = n;
        for j in 0..rs.len()
            invariant
                rs@ == ps@[i as int].repo_results@,
                base + count_would_pr_results(rs@) <= usize::MAX,
                n == base + count_would_pr_results(rs@.take(j as int)),
        {
            proof {
                assert(rs@.take(j + 1).drop_last() =~= rs@.take(j as int));
                lemma_count_would_pr_results_prefix(rs@, j + 1);
            }
            if let RepoOutcome::Fail { remediations, .. } = &rs[j].outcome {
                if any_opens_pr(remediations) {
                    n = n + 1;
                }
            }
        }
        proof { assert(rs@.take(rs@.len() as int) =~= rs@); }
    }
    proof { assert(ps@.take(ps@.len() as int) =~= ps@); }
    if n == 0 {
        "0 actions".to_owned()
    } else {
        let mut s = crate::text::usize_to_string(n);
        s.append(" would create");
        s
    }
}

proof fn lemma_count_would_pr_results_prefix(rs: Seq<RepoResult>, k: int)
    requires
        0 <= k <= rs.len(),
    ensures
        count_would_pr_results(rs.take(k)) <= count_would_pr_results(rs),
    decreases rs.len() - k,
{
    if k < rs.len() {
        assert(rs.take(k + 1).drop_last() =~= rs.take(k));
        lemma_count_would_pr_results_prefix(rs, k + 1);
    } else {
        assert(rs.take(k) =~= rs);
    }
}

proof fn lemma_count_would_pr_prefix(ps: Seq<PolicyReport>, k: int)
    requires
        0 <= k <= ps.len(),
    ensures
        count_would_pr(ps.take(k)) <= count_would_pr(ps),
    decreases ps.len() - k,
{
    if k < ps.len() {
        assert(ps.take(k + 1).drop_last() =~= ps.take(k));
        lemma_count_would_pr_prefix(ps, k + 1);
    } else {
        assert(ps.take(k) =~= ps);
    }
}

/// All results for one repository, across policies.
#[derive(Debug)]
pub struct RepoGroup<'a> {
    pub repo_name: &'a str,
    /// `(policy name, result)` in the order the policies were declared.
    pub results: Vec<(&'a str, &'a RepoResult)>,
}

/// The content of a group: repository name and `(policy name, result)` members.
pub open spec fn group_view<'a>(g: RepoGroup<'a>) -> (Seq<char>, Seq<(Seq<char>, RepoResult)>) {
    (g.repo_name@, g.results@.map_values(|m: (&'a str, &'a RepoResult)| (m.0@, *m.1)))
}

/// The contents of a list of groups.
pub open spec fn groups_view<'a>(gs: Seq<RepoGroup<'a>>) -> Seq<(Seq<char>, Seq<(Seq<char>, RepoResult)>)> {
    gs.map_values(|g: RepoGroup<'a>| group_view(g))
}

/// Index of the group for `repo`, or -1.
pub open spec fn find_group(gs: Seq<(Seq<char>, Seq<(Seq<char>, RepoResult)>)>, repo: Seq<char>) -> int
    decreases gs.len(),
{
    if gs.len() == 0 {
        -1
    } else {
        let i = find_group(gs.drop_last(), repo);
        if i >= 0 { i } else if gs.last().0 == repo { gs.len() - 1 } else { -1 }
    }
}

/// Where a new group for `repo` goes: before the first group whose name sorts after it.
pub open spec fn insert_pos(gs: Seq<(Seq<char>, Seq<(Seq<char>, RepoResult)>)>, repo: Seq<char>) -> int
    decreases gs.len(),
{
    if gs.len() == 0 {
        0
    } else {
        let i = insert_pos(gs.drop_last(), repo);
        if i < gs.len() - 1 { i } else if lex_lt(repo, gs.last().0) { gs.len() - 1 } else { gs.len() as int }
    }
}

/// Add one `(policy, result)` member to the groups, keyed by the result's repository.
pub open spec fn add_member(
    gs: Seq<(Seq<char>, Seq<(Seq<char>, RepoResult)>)>,
    policy: Seq<char>,
    rr: RepoResult,
) -> Seq<(Seq<char>, Seq<(Seq<char>, RepoResult)>)> {
    let i = find_group(gs, rr.repo_name@);
    if i >= 0 {
        gs.update(i, (gs[i].0, gs[i].1.push((policy, rr))))
    } else {
        gs.insert(insert_pos(gs, rr.repo_name@), (rr.repo_name@, seq![(policy, rr)]))
    }
}

/// Group the results of one policy into `gs`.
pub open spec fn group_results(
    gs: Seq<(Seq<char>, Seq<(Seq<char>, RepoResult)>)>,
    policy: Seq<char>,
    rs: Seq<RepoResult>,
) -> Seq<(Seq<char>, Seq<(Seq<char>, RepoResult)>)>
    decreases rs.len(),
{
    if rs.len() == 0 {
        gs
    } else {
        add_member(group_results(gs, policy, rs.drop_last()), policy, rs.last())
    }
}

/// Group the results of all policies, policy by policy.
pub open spec fn group_policies(ps: Seq<PolicyReport>) -> Seq<(Seq<char>, Seq<(Seq<char>, RepoResult)>)>
    decreases ps.len(),
{
    if ps.len() == 0 {
        Seq::empty()
    } else {
        group_results(group_policies(ps.drop_last()), ps.last().policy_name@, ps.last().repo_results@)
    }
}

/// Group a report's per-policy results by repository.
///
/// Repositories appear in sorted order; within each repository, policy results
/// are in the order the policies were declared.
pub fn group_by_repo<'a>(report: &'a Report) -> (gs: Vec<RepoGroup<'a>>)
    ensures
        groups_view(gs@) == group_policies(report.results@),
{
    let mut gs: Vec<RepoGroup<'a>> = Vec::new();
    let ps = &report.results;
    proof { assert(groups_view(gs@) =~= Seq::empty()); }
    for i in 0..ps.len()
        invariant
            ps@ == report.results@,
            groups_view(gs@) == group_policies(ps@.take(i as int)),
    {
        proof { assert(ps@.take(i + 1).drop_last() =~= ps@.take(i as int)); }
        let p: &'a PolicyReport = &ps[i];
        let rs = &p.repo_results;
        let ghost g0 = groups_view(gs@);
        for j in 0..rs.len()
            invariant
                rs@ == p.repo_results@,
                groups_view(gs@) == group_results(g0, p.policy_name@, rs@.take(j as int)),
        {
            proof { assert(rs@.take(j + 1).drop_last() =~= rs@.take(j as int)); }
            add_member_exec(&mut gs, p.policy_name.as_str(), &rs[j]);
        }
        proof { assert(rs@.take(rs@.len() as int) =~= rs@); }
    }
    proof { assert(ps@.take(ps@.len() as int) =~= ps@); }
    gs
}

fn add_member_exec<'a>(gs: &mut Vec<RepoGroup<'a>>, policy: &'a str, rr: &'a RepoResult)
    ensures
        groups_view(final(gs)@) == add_member(groups_view(old(gs)@), policy@, *rr),
{
    let ghost v = groups_view(gs@);
    let mut i: usize = 0;
    while i < gs.len()
        invariant
            v == groups_view(gs@),
            gs@ == old(gs)@,
            i <= gs@.len(),
            find_group(v.take(i as int), rr.repo_name@) == -1,
        decreases gs@.len() - i,
    {
        proof { assert(v.take(i + 1).drop_last() =~= v.take(i as int)); }
        if str_eq(gs[i].repo_name, rr.repo_name.as_str()) {
            proof { lemma_find_group_prefix(v, rr.repo_name@, i + 1); }
            let mut g = gs.remove(i);
            g.results.push((policy, rr));
            gs.insert(i, g);
            proof {
                assert(group_view(g).1 =~= v[i as int].1.push((policy@, *rr)));
                assert(groups_view(gs@) =~= add_member(v, policy@, *rr));
            }
            return;
        }
        i = i + 1;
    }
    proof { assert(v.take(i as int) =~= v); }
    let mut results: Vec<(&'a str, &'a RepoResult)> = Vec::new();
    results.push((policy, rr));
    let g = RepoGroup { repo_name: rr.repo_name.as_str(), results };
    let pos = find_insert_pos(gs, rr.repo_name.as_str());
    gs.insert(pos, g);
    proof {
        assert(group_view(g) =~= (rr.repo_name@, seq![(policy@, *rr)]));
        assert(groups_view(gs@) =~= add_member(v, policy@, *rr));
    }
}

fn find_insert_pos<'a>(gs: &Vec<RepoGroup<'a>>, repo: &str) -> (pos: usize)
    ensures
        pos as int == insert_pos(groups_view(gs@), repo@),
        pos <= gs@.len(),
{
    let ghost v = groups_view(gs@);
    for i in 0..gs.len()
        invariant
            v == groups_view(gs@),
            insert_pos(v.take(i as int), repo@) == i,
    {
        proof { assert(v.take(i + 1).drop_last() =~= v.take(i as int)); }
        if str_lt(repo, gs[i].repo_name) {
            proof { lemma_insert_pos_prefix(v, repo@, i + 1); }
            return i;
        }
    }
    proof { assert(v.take(gs@.len() as int) =~= v); }
    gs.len()
}

proof fn lemma_find_group_prefix(s: Seq<(Seq<char>, Seq<(Seq<char>, RepoResult)>)>, repo: Seq<char>, k: int)
    requires
        0 <= k <= s.len(),
        find_group(s.take(k), repo) >= 0,
    ensures
        find_group(s, repo) == find_group(s.take(k), repo),
    decreases s.len() - k,
{
    if k < s.len() {
        assert(s.take(k + 1).drop_last() =~= s.take(k));
        lemma_find_group_prefix(s, repo, k + 1);
    } else {
        assert(s.take(k) =~= s);
    }
}

proof fn lemma_insert_pos_prefix(s: Seq<(Seq<char>, Seq<(Seq<char>, RepoResult)>)>, repo: Seq<char>, k: int)
    requires
        0 <= k <= s.len(),
        insert_pos(s.take(k), repo) < k,
    ensures
        insert_pos(s, repo) == insert_pos(s.take(k), repo),
    decreases s.len() - k,
{
    if k < s.len() {
        assert(s.take(k + 1).drop_last() =~= s.take(k));
        lemma_insert_pos_prefix(s, repo, k + 1);
    } else {
        assert(s.take(k) =~= s);
    }
}

/// Per-repository tally across all policies the repo was evaluated under.
#[derive(Debug, Clone, Copy, PartialEq, Eq, Structural)]
pub struct RepoCounts {
    pub passing: usize,
    pub failing: usize,
    pub skipped: usize,
    pub errors: usize,
}

/// Number of members whose outcome has kind `k`.
pub open spec fn count_member_kind<'a>(ms: Seq<(&'a str, &'a RepoResult)>, k: OutcomeKind) -> nat
    decreases ms.len(),
{
    if ms.len() == 0 {
        0
    } else {
        count_member_kind(ms.drop_last(), k) + if ms.last().1.outcome.spec_kind() == k { 1nat } else { 0nat }
    }
}

proof fn lemma_member_kinds_total<'a>(ms: Seq<(&'a str, &'a RepoResult)>)
    ensures
        count_member_kind(ms, OutcomeKind::Pass) + count_member_kind(ms, OutcomeKind::Fail)
            + count_member_kind(ms, OutcomeKind::Skip) + count_member_kind(ms, OutcomeKind::Error)
            == ms.len(),
    decreases ms.len(),
{
    if ms.len() > 0 {
        lemma_member_kinds_total(ms.drop_last());
    }
}

impl RepoCounts {
    /// Count a repository's results by outcome kind.
    pub fn from_results<'a>(results: &Vec<(&'a str, &'a RepoResult)>) -> (c: Self)
        ensures
            c.passing == count_member_kind(results@, OutcomeKind::Pass),
            c.failing == count_member_kind(results@, OutcomeKind::Fail),
            c.skipped == count_member_kind(results@, OutcomeKind::Skip),
            c.errors == count_member_kind(results@, OutcomeKind::Error),
            c.passing + c.failing + c.skipped + c.errors == results@.len(),
    {
        let mut c = RepoCounts { passing: 0, failing: 0, skipped: 0, errors: 0 };
        for i in 0..results.len()
            invariant
                c.passing == count_member_kind(results@.take(i as int), OutcomeKind::Pass),
                c.failing == count_member_kind(results@.take(i as int), OutcomeKind::Fail),
                c.skipped == count_member_kind(results@.take(i as int), OutcomeKind::Skip),
                c.errors == count_member_kind(results@.take(i as int), OutcomeKind::Error),
        {
            proof {
                assert(results@.take(i + 1).drop_last() =~= results@.take(i as int));
                lemma_member_kinds_total(results@.take(i as int));
            }
            match results[i].1.outcome.kind() {
                OutcomeKind::Pass => c.passing = c.passing + 1,
                OutcomeKind::Fail => c.failing = c.failing + 1,
                OutcomeKind::Skip => c.skipped = c.skipped + 1,
                OutcomeKind::Error => c.errors = c.errors + 1,
            }
        }
        proof {
            assert(results@.take(results@.len() as int) =~= results@);
            lemma_member_kinds_total(results@);
        }
        c
    }

    /// All results counted.
    pub fn total(&self) -> (n: usize)
        requires
            self.passing + self.failing + self.skipped + self.errors <= usize::MAX,
        ensures
            n == self.passing + self.failing + self.skipped + self.errors,
    {
        self.passing + self.failing + self.skipped + self.errors
    }
}


/// Whether every count a renderer derives from the report fits in a machine word.
pub open spec fn report_fits(r: Report) -> bool {
    r.summary.passing + r.summary.failing <= usize::MAX && count_would_pr(r.results@) <= usize::MAX
}

/// Renders a [`Report`] or [`ApplyReport`] into a human-readable string.
pub trait Formatter {
    /// Formatter identifier (e.g. `"table"`, `"markdown"`).
    fn name(&self) -> &str;

    /// Format a check-mode report, grouped by policy (default view).
    fn format(&self, report: &Report) -> Result<String, CoreError>
        requires
            report_fits(*report),
    ;

    /// Format a check-mode report, grouped by repository.
    fn format_by_repo(&self, report: &Report) -> Result<String, CoreError>
        requires
            report_fits(*report),
    ;

    /// Format an apply report.
    fn format_apply(&self, apply_report: &ApplyReport) -> Result<String, CoreError>
        requires
            report_fits(apply_report.report),
    ;
}


/// Groups in strictly increasing order of repository name (so each name appears once).
pub open spec fn groups_sorted(gs: Seq<(Seq<char>, Seq<(Seq<char>, RepoResult)>)>) -> bool {
    forall|i: int, j: int| 0 <= i < j < gs.len() ==> lex_lt((#[trigger] gs[i]).0, (#[trigger] gs[j]).0)
}

proof fn lemma_find_group_absent(gs: Seq<(Seq<char>, Seq<(Seq<char>, RepoResult)>)>, repo: Seq<char>)
    ensures
        find_group(gs, repo) == -1 <==> forall|k: int| 0 <= k < gs.len() ==> (#[trigger] gs[k]).0 != repo,
        find_group(gs, repo) >= 0 ==> find_group(gs, repo) < gs.len() && gs[find_group(gs, repo)].0 == repo,
        find_group(gs, repo) >= -1,
    decreases gs.len(),
{
    if gs.len() > 0 {
        lemma_find_group_absent(gs.drop_last(), repo);
        assert forall|k: int| 0 <= k < gs.len() - 1 implies gs.drop_last()[k] == #[trigger] gs[k] by {}
    }
}

proof fn lemma_insert_pos_sorted(gs: Seq<(Seq<char>, Seq<(Seq<char>, RepoResult)>)>, repo: Seq<char>)
    requires
        groups_sorted(gs),
        forall|k: int| 0 <= k < gs.len() ==> (#[trigger] gs[k]).0 != repo,
    ensures
        0 <= insert_pos(gs, repo) <= gs.len(),
        forall|k: int| 0 <= k < insert_pos(gs, repo) ==> lex_lt((#[trigger] gs[k]).0, repo),
        forall|k: int| insert_pos(gs, repo) <= k < gs.len() ==> lex_lt(repo, (#[trigger] gs[k]).0),
    decreases gs.len(),
{
    if gs.len() > 0 {
        let d = gs.drop_last();
        assert forall|k: int| 0 <= k < d.len() implies d[k] == #[trigger] gs[k] by {}
        assert(groups_sorted(d)) by {
            assert forall|i: int, j: int| 0 <= i < j < d.len() implies lex_lt((#[trigger] d[i]).0, (#[trigger] d[j]).0) by {
                assert(d[i] == gs[i] && d[j] == gs[j]);
            }
        }
        lemma_insert_pos_sorted(d, repo);
        let i = insert_pos(d, repo);
        let last = gs.len() - 1;
        if i < d.len() {
            assert(lex_lt(repo, d[i].0));
            assert(lex_lt(gs[i].0, gs[last].0));
            lemma_lex_transitive(repo, gs[i].0, gs[last].0);
        } else if !lex_lt(repo, gs[last].0) {
            lemma_lex_total(repo, gs[last].0);
        }
    }
}

proof fn lemma_add_member_sorted(
    gs: Seq<(Seq<char>, Seq<(Seq<char>, RepoResult)>)>,
    policy: Seq<char>,
    rr: RepoResult,
)
    requires
        groups_sorted(gs),
    ensures
        groups_sorted(add_member(gs, policy, rr)),
{
    let repo = rr.repo_name@;
    lemma_find_group_absent(gs, repo);
    let i = find_group(gs, repo);
    let r = add_member(gs, policy, rr);
    if i >= 0 {
        assert forall|a: int, b: int| 0 <= a < b < r.len() implies lex_lt((#[trigger] r[a]).0, (#[trigger] r[b]).0) by {
            assert(r[a].0 == gs[a].0 && r[b].0 == gs[b].0);
        }
    } else {
        lemma_insert_pos_sorted(gs, repo);
        let p = insert_pos(gs, repo);
        assert forall|a: int, b: int| 0 <= a < b < r.len() implies lex_lt((#[trigger] r[a]).0, (#[trigger] r[b]).0) by {
            if b < p {
                assert(r[a] == gs[a] && r[b] == gs[b]);
            } else if b == p {
                assert(r[a] == gs[a] && r[b].0 == repo);
            } else if a < p {
                assert(r[a] == gs[a] && r[b] == gs[b - 1]);
                if a < b - 1 {
                    assert(lex_lt(gs[a].0, gs[b - 1].0));
                }
            } else if a == p {
                assert(r[a].0 == repo && r[b] == gs[b - 1]);
            } else {
                assert(r[a] == gs[a - 1] && r[b] == gs[b - 1]);
            }
        }
    }
}

proof fn lemma_group_results_sorted(
    gs: Seq<(Seq<char>, Seq<(Seq<char>, RepoResult)>)>,
    policy: Seq<char>,
    rs: Seq<RepoResult>,
)
    requires
        groups_sorted(gs),
    ensures
        groups_sorted(group_results(gs, policy, rs)),
    decreases rs.len(),
{
    if rs.len() > 0 {
        lemma_group_results_sorted(gs, policy, rs.drop_last());
        lemma_add_member_sorted(group_results(gs, policy, rs.drop_last()), policy, rs.last());
    }
}

/// The by-repository view lists repositories in sorted order, each exactly once.
pub proof fn law_groups_sorted_by_repo(ps: Seq<PolicyReport>)
    ensures
        groups_sorted(group_policies(ps)),
    decreases ps.len(),
{
    if ps.len() > 0 {
        law_groups_sorted_by_repo(ps.drop_last());
        lemma_group_results_sorted(group_policies(ps.drop_last()), ps.last().policy_name@, ps.last().repo_results@);
    }
}

/// Whether a report's counts fit the renderers' arithmetic (see [`report_fits`]).
pub fn check_report_fits(report: &Report) -> (b: bool)
    ensures
        b == report_fits(*report),
{
    if report.summary.passing > usize::MAX - report.summary.failing {
        return false;
    }
    let mut n: usize = 0;
    let ps = &report.results;
    let mut i: usize = 0;
    while i < ps.len()
        invariant
            ps@ == report.results@,
            report.summary.passing + report.summary.failing <= usize::MAX,
            i <= ps@.len(),
            n == count_would_pr(ps@.take(i as int)),
        decreases ps@.len() - i,
    {
        proof {
            assert(ps@.take(i + 1).drop_last() =~= ps@.take(i as int));
            lemma_count_would_pr_prefix(ps@, i + 1);
        }
        let rs = &ps[i].repo_results;
        let ghost base = n;
        let mut j: usize = 0;
        while j < rs.len()
            invariant
                ps@ == report.results@,
                report.summary.passing + report.summary.failing <= usize::MAX,
                i < ps@.len(),
                rs@ == ps@[i as int].repo_results@,
                base == count_would_pr(ps@.take(i as int)),
                count_would_pr(ps@.take(i + 1)) == base + count_would_pr_results(rs@),
                j <= rs@.len(),
                n == base + count_would_pr_results(rs@.take(j as int)),
            decreases rs@.len() - j,
        {
            proof {
                assert(rs@.take(j + 1).drop_last() =~= rs@.take(j as int));
                lemma_count_would_pr_results_prefix(rs@, j + 1);
            }
            if let RepoOutcome::Fail { remediations, .. } = &rs[j].outcome {
                if any_opens_pr(remediations) {
                    if n == usize::MAX {
                        proof {
                            lemma_count_would_pr_prefix(ps@, i + 1);
                        }
                        return false;
                    }
                    n = n + 1;
                }
            }
            j = j + 1;
        }
        proof { assert(rs@.take(rs@.len() as int) =~= rs@); }
        i = i + 1;
    }
    proof { assert(ps@.take(ps@.len() as int) =~= ps@); }
    true
}

} // verus!
