//! Cross-policy planning of API-only remediations.
//!
//! Repo-settings and branch-protection remediations can come from many
//! policies that target the same repo. They are aggregated up-front so the
//! executor issues one PATCH per repo (or repo+branch) and the check renderer
//! shows the same planned actions.

use vstd::prelude::*;

use crate::engine::executor::{autolink_step, protection_step, settings_step, AutolinkAction, BranchProtectionAction, LedgerView, SettingsAction, SettingsActionKind};
use crate::formatter::{PolicyReport, RepoOutcome, RepoResult, Report};
use crate::model::{BranchProtectionPatch, BranchProtectionPatchView, RepoSettingsPatch};
use crate::rule::{AttributedRemediation, Remediation};

verus! {

/// One repo-settings patch contributed by a policy's failing result.
pub struct SettingsContribution {
    pub repo: Seq<char>,
    pub policy: Seq<char>,
    pub patch: RepoSettingsPatch,
}

/// One branch-protection patch contributed by a policy's failing result.
pub struct ProtectionContribution {
    pub repo: Seq<char>,
    pub branch: Seq<char>,
    pub policy: Seq<char>,
    pub patch: BranchProtectionPatchView,
}

/// The aggregate planned for one repository.
pub struct SettingsEntry {
    pub repo: Seq<char>,
    pub patch: RepoSettingsPatch,
    pub policies: Seq<Seq<char>>,
}

/// The aggregate planned for one (repository, branch).
pub struct ProtectionEntry {
    pub repo: Seq<char>,
    pub branch: Seq<char>,
    pub patch: BranchProtectionPatchView,
    pub policies: Seq<Seq<char>>,
}

/// The remediations of an outcome: those of a failure, none otherwise.
pub open spec fn remediations_of(o: RepoOutcome) -> Seq<AttributedRemediation> {
    match o {
        RepoOutcome::Fail { remediations, .. } => remediations@,
        _ => Seq::empty(),
    }
}

/// The repo-settings patches among `rems`, in order.
pub open spec fn settings_of_rems(repo: Seq<char>, policy: Seq<char>, rems: Seq<AttributedRemediation>) -> Seq<SettingsContribution>
    decreases rems.len(),
{
    if rems.len() == 0 {
        Seq::empty()
    } else {
        settings_of_rems(repo, policy, rems.drop_last()) + match rems.last().remediation {
            Remediation::RepoSettings { patch, .. } => seq![SettingsContribution { repo, policy, patch }],
            _ => Seq::empty(),
        }
    }
}

/// The branch-protection patches among `rems`, in order.
pub open spec fn protections_of_rems(repo: Seq<char>, policy: Seq<char>, rems: Seq<AttributedRemediation>) -> Seq<ProtectionContribution>
    decreases rems.len(),
{
    if rems.len() == 0 {
        Seq::empty()
    } else {
        protections_of_rems(repo, policy, rems.drop_last()) + match rems.last().remediation {
            Remediation::BranchProtection { branch, patch, .. } => seq![
                ProtectionContribution { repo, branch: branch@, policy, patch: patch@ },
            ],
            _ => Seq::empty(),
        }
    }
}

/// The repo-settings patches of one policy's results, in order.
pub open spec fn settings_of_results(policy: Seq<char>, rs: Seq<RepoResult>) -> Seq<SettingsContribution>
    decreases rs.len(),
{
    if rs.len() == 0 {
        Seq::empty()
    } else {
        settings_of_results(policy, rs.drop_last()) + settings_of_rems(
            rs.last().repo_name@,
            policy,
            remediations_of(rs.last().outcome),
        )
    }
}

/// The branch-protection patches of one policy's results, in order.
pub open spec fn protections_of_results(policy: Seq<char>, rs: Seq<RepoResult>) -> Seq<ProtectionContribution>
    decreases rs.len(),
{
    if rs.len() == 0 {
        Seq::empty()
    } else {
        protections_of_results(policy, rs.drop_last()) + protections_of_rems(
            rs.last().repo_name@,
            policy,
            remediations_of(rs.last().outcome),
        )
    }
}

/// All repo-settings patches of a report, policy by policy, result by result.
pub open spec fn settings_of_policies(ps: Seq<PolicyReport>) -> Seq<SettingsContribution>
    decreases ps.len(),
{
    if ps.len() == 0 {
        Seq::empty()
    } else {
        settings_of_policies(ps.drop_last()) + settings_of_results(
            ps.last().policy_name@,
            ps.last().repo_results@,
        )
    }
}

/// All branch-protection patches of a report, policy by policy, result by result.
pub open spec fn protections_of_policies(ps: Seq<PolicyReport>) -> Seq<ProtectionContribution>
    decreases ps.len(),
{
    if ps.len() == 0 {
        Seq::empty()
    } else {
        protections_of_policies(ps.drop_last()) + protections_of_results(
            ps.last().policy_name@,
            ps.last().repo_results@,
        )
    }
}

/// Index of the first entry for `repo`, or -1.
pub open spec fn find_settings(acc: Seq<SettingsEntry>, repo: Seq<char>) -> int
    decreases acc.len(),
{
    if acc.len() == 0 {
        -1
    } else {
        let i = find_settings(acc.drop_last(), repo);
        if i >= 0 {
            i
        } else if acc.last().repo == repo {
            acc.len() - 1
        } else {
            -1
        }
    }
}

/// Index of the first entry for `(repo, branch)`, or -1.
pub open spec fn find_protection(acc: Seq<ProtectionEntry>, repo: Seq<char>, branch: Seq<char>) -> int
    decreases acc.len(),
{
    if acc.len() == 0 {
        -1
    } else {
        let i = find_protection(acc.drop_last(), repo, branch);
        if i >= 0 {
            i
        } else if acc.last().repo == repo && acc.last().branch == branch {
            acc.len() - 1
        } else {
            -1
        }
    }
}

/// `names` with `n` appended unless already present.
pub open spec fn add_name(names: Seq<Seq<char>>, n: Seq<char>) -> Seq<Seq<char>> {
    if names.contains(n) { names } else { names.push(n) }
}

/// Fold one contribution into the per-repo aggregates.
pub open spec fn add_settings(acc: Seq<SettingsEntry>, c: SettingsContribution) -> Seq<SettingsEntry> {
    let i = find_settings(acc, c.repo);
    if i >= 0 {
        acc.update(
            i,
            SettingsEntry {
                repo: acc[i].repo,
                patch: acc[i].patch.overlaid(c.patch),
                policies: add_name(acc[i].policies, c.policy),
            },
        )
    } else {
        acc.push(
            SettingsEntry {
                repo: c.repo,
                patch: RepoSettingsPatch::spec_empty().overlaid(c.patch),
                policies: seq![c.policy],
            },
        )
    }
}

/// Fold one contribution into the per-(repo, branch) aggregates.
pub open spec fn add_protection(acc: Seq<ProtectionEntry>, c: ProtectionContribution) -> Seq<ProtectionEntry> {
    let i = find_protection(acc, c.repo, c.branch);
    if i >= 0 {
        acc.update(
            i,
            ProtectionEntry {
                repo: acc[i].repo,
                branch: acc[i].branch,
                patch: acc[i].patch.overlaid(c.patch),
                policies: add_name(acc[i].policies, c.policy),
            },
        )
    } else {
        acc.push(
            ProtectionEntry {
                repo: c.repo,
                branch: c.branch,
                patch: BranchProtectionPatchView::empty().overlaid(c.patch),
                policies: seq![c.policy],
            },
        )
    }
}

/// Fold all contributions, in order, into per-repo aggregates.
pub open spec fn group_settings(acc: Seq<SettingsEntry>, cs: Seq<SettingsContribution>) -> Seq<SettingsEntry>
    decreases cs.len(),
{
    if cs.len() == 0 {
        acc
    } else {
        add_settings(group_settings(acc, cs.drop_last()), cs.last())
    }
}

/// Fold all contributions, in order, into per-(repo, branch) aggregates.
pub open spec fn group_protections(acc: Seq<ProtectionEntry>, cs: Seq<ProtectionContribution>) -> Seq<ProtectionEntry>
    decreases cs.len(),
{
    if cs.len() == 0 {
        acc
    } else {
        add_protection(group_protections(acc, cs.drop_last()), cs.last())
    }
}

/// The aggregates whose merged patch sets something.
pub open spec fn nonempty_settings(es: Seq<SettingsEntry>) -> Seq<SettingsEntry>
    decreases es.len(),
{
    if es.len() == 0 {
        Seq::empty()
    } else if es.last().patch == RepoSettingsPatch::spec_empty() {
        nonempty_settings(es.drop_last())
    } else {
        nonempty_settings(es.drop_last()).push(es.last())
    }
}

/// The aggregates whose merged patch sets something.
pub open spec fn nonempty_protections(es: Seq<ProtectionEntry>) -> Seq<ProtectionEntry>
    decreases es.len(),
{
    if es.len() == 0 {
        Seq::empty()
    } else if es.last().patch == BranchProtectionPatchView::empty() {
        nonempty_protections(es.drop_last())
    } else {
        nonempty_protections(es.drop_last()).push(es.last())
    }
}

/// The planned repo-settings updates of a report: one per repository, in order of first
/// contribution, merging every contributing patch and naming each contributing policy once.
pub open spec fn planned_settings(r: Report) -> Seq<SettingsEntry> {
    nonempty_settings(group_settings(Seq::empty(), settings_of_policies(r.results@)))
}

/// The planned branch-protection updates of a report: one per (repository, branch).
pub open spec fn planned_protections(r: Report) -> Seq<ProtectionEntry> {
    nonempty_protections(group_protections(Seq::empty(), protections_of_policies(r.results@)))
}

/// The aggregate a settings action stands for.
pub open spec fn settings_entry_of(a: SettingsAction) -> SettingsEntry {
    SettingsEntry { repo: a.repo_name@, patch: a.patch, policies: a.policy_names.deep_view() }
}

/// The aggregate a branch-protection action stands for.
pub open spec fn protection_entry_of(a: BranchProtectionAction) -> ProtectionEntry {
    ProtectionEntry {
        repo: a.repo_name@,
        branch: a.branch@,
        patch: a.patch@,
        policies: a.policy_names.deep_view(),
    }
}

/// Every action is a not-yet-performed (dry-run) one without error.
pub open spec fn all_dry_settings(s: Seq<SettingsAction>) -> bool {
    forall|i: int| 0 <= i < s.len() ==> (#[trigger] s[i]).action == SettingsActionKind::DryRun && s[i].error is None
}

/// Every action is a not-yet-performed (dry-run) one without error.
pub open spec fn all_dry_protections(s: Seq<BranchProtectionAction>) -> bool {
    forall|i: int| 0 <= i < s.len() ==> (#[trigger] s[i]).action == SettingsActionKind::DryRun && s[i].error is None
}

proof fn lemma_group_settings_append(acc: Seq<SettingsEntry>, a: Seq<SettingsContribution>, b: Seq<SettingsContribution>)
    ensures
        group_settings(acc, a + b) == group_settings(group_settings(acc, a), b),
    decreases b.len(),
{
    if b.len() == 0 {
        assert(a + b =~= a);
    } else {
        assert((a + b).drop_last() =~= a + b.drop_last());
        lemma_group_settings_append(acc, a, b.drop_last());
    }
}

proof fn lemma_group_protections_append(acc: Seq<ProtectionEntry>, a: Seq<ProtectionContribution>, b: Seq<ProtectionContribution>)
    ensures
        group_protections(acc, a + b) == group_protections(group_protections(acc, a), b),
    decreases b.len(),
{
    if b.len() == 0 {
        assert(a + b =~= a);
    } else {
        assert((a + b).drop_last() =~= a + b.drop_last());
        lemma_group_protections_append(acc, a, b.drop_last());
    }
}

/// The aggregates that a list of settings actions stands for.
pub open spec fn settings_entries(s: Seq<SettingsAction>) -> Seq<SettingsEntry> {
    s.map_values(|a: SettingsAction| settings_entry_of(a))
}

/// The aggregates that a list of branch-protection actions stands for.
pub open spec fn protection_entries(s: Seq<BranchProtectionAction>) -> Seq<ProtectionEntry> {
    s.map_values(|a: BranchProtectionAction| protection_entry_of(a))
}

/// Whether `n` is among `names` (by content).
pub fn names_contain(names: &Vec<String>, n: &String) -> (b: bool)
    ensures
        b == names.deep_view().contains(n@),
{
    for i in 0..names.len()
        invariant
            forall|j: int| 0 <= j < i ==> names@[j]@ != n@,
    {
        if names[i] == *n {
            proof { assert(names.deep_view()[i as int] == n@); }
            return true;
        }
    }
    proof {
        if names.deep_view().contains(n@) {
            let j = choose|j: int| 0 <= j < names.deep_view().len() && names.deep_view()[j] == n@;
            assert(names@[j]@ == n@);
        }
    }
    false
}

fn find_settings_exec(acc: &Vec<SettingsAction>, repo: &String) -> (r: Option<usize>)
    ensures
        r matches Some(i) ==> i < acc@.len() && i as int == find_settings(settings_entries(acc@), repo@),
        r is None ==> find_settings(settings_entries(acc@), repo@) == -1,
{
    for i in 0..acc.len()
        invariant
            find_settings(settings_entries(acc@).take(i as int), repo@) == -1,
    {
        proof {
            assert(settings_entries(acc@).take(i + 1).drop_last() =~= settings_entries(acc@).take(i as int));
        }
        if acc[i].repo_name == *repo {
            proof { lemma_find_settings_prefix(settings_entries(acc@), repo@, i + 1); }
            return Some(i);
        }
    }
    proof { assert(settings_entries(acc@).take(acc@.len() as int) =~= settings_entries(acc@)); }
    None
}

proof fn lemma_find_settings_prefix(s: Seq<SettingsEntry>, repo: Seq<char>, k: int)
    requires
        0 <= k <= s.len(),
        find_settings(s.take(k), repo) >= 0,
    ensures
        find_settings(s, repo) == find_settings(s.take(k), repo),
    decreases s.len() - k,
{
    if k < s.len() {
        assert(s.take(k + 1).drop_last() =~= s.take(k));
        lemma_find_settings_prefix(s, repo, k + 1);
    } else {
        assert(s.take(k) =~= s);
    }
}

proof fn lemma_find_protection_prefix(s: Seq<ProtectionEntry>, repo: Seq<char>, branch: Seq<char>, k: int)
    requires
        0 <= k <= s.len(),
        find_protection(s.take(k), repo, branch) >= 0,
    ensures
        find_protection(s, repo, branch) == find_protection(s.take(k), repo, branch),
    decreases s.len() - k,
{
    if k < s.len() {
        assert(s.take(k + 1).drop_last() =~= s.take(k));
        lemma_find_protection_prefix(s, repo, branch, k + 1);
    } else {
        assert(s.take(k) =~= s);
    }
}

fn find_protection_exec(acc: &Vec<BranchProtectionAction>, repo: &String, branch: &String) -> (r: Option<usize>)
    ensures
        r matches Some(i) ==> i < acc@.len() && i as int == find_protection(protection_entries(acc@), repo@, branch@),
        r is None ==> find_protection(protection_entries(acc@), repo@, branch@) == -1,
{
    for i in 0..acc.len()
        invariant
            find_protection(protection_entries(acc@).take(i as int), repo@, branch@) == -1,
    {
        proof {
            assert(protection_entries(acc@).take(i + 1).drop_last() =~= protection_entries(acc@).take(i as int));
        }
        if acc[i].repo_name == *repo && acc[i].branch == *branch {
            proof { lemma_find_protection_prefix(protection_entries(acc@), repo@, branch@, i + 1); }
            return Some(i);
        }
    }
    proof { assert(protection_entries(acc@).take(acc@.len() as int) =~= protection_entries(acc@)); }
    None
}

fn add_settings_exec(acc: &mut Vec<SettingsAction>, repo: &String, policy: &String, patch: &RepoSettingsPatch)
    requires
        all_dry_settings(old(acc)@),
    ensures
        all_dry_settings(final(acc)@),
        settings_entries(final(acc)@) == add_settings(
            settings_entries(old(acc)@),
            SettingsContribution { repo: repo@, policy: policy@, patch: *patch },
        ),
{
    let ghost c = SettingsContribution { repo: repo@, policy: policy@, patch: *patch };
    match find_settings_exec(acc, repo) {
        Some(i) => {
            let mut entry = acc.remove(i);
            entry.patch.merge(patch.clone());
            if !names_contain(&entry.policy_names, policy) {
                entry.policy_names.push(policy.clone());
                proof { assert(entry.policy_names.deep_view() =~= old(acc)@[i as int].policy_names.deep_view().push(policy@)); }
            }
            acc.insert(i, entry);
            proof {
                assert(settings_entries(acc@) =~= add_settings(settings_entries(old(acc)@), c));
            }
        },
        None => {
            let mut names: Vec<String> = Vec::new();
            names.push(policy.clone());
            let mut merged = RepoSettingsPatch::default();
            merged.merge(patch.clone());
            acc.push(SettingsAction {
                repo_name: repo.clone(),
                policy_names: names,
                patch: merged,
                action: SettingsActionKind::DryRun,
                error: None,
            });
            proof {
                assert(names.deep_view() =~= seq![policy@]);
                assert(settings_entries(acc@) =~= add_settings(settings_entries(old(acc)@), c));
            }
        },
    }
}

fn add_protection_exec(
    acc: &mut Vec<BranchProtectionAction>,
    repo: &String,
    branch: &String,
    policy: &String,
    patch: &BranchProtectionPatch,
)
    requires
        all_dry_protections(old(acc)@),
    ensures
        all_dry_protections(final(acc)@),
        protection_entries(final(acc)@) == add_protection(
            protection_entries(old(acc)@),
            ProtectionContribution { repo: repo@, branch: branch@, policy: policy@, patch: patch@ },
        ),
{
    let ghost c = ProtectionContribution { repo: repo@, branch: branch@, policy: policy@, patch: patch@ };
    match find_protection_exec(acc, repo, branch) {
        Some(i) => {
            let mut entry = acc.remove(i);
            entry.patch.merge(patch.clone());
            if !names_contain(&entry.policy_names, policy) {
                entry.policy_names.push(policy.clone());
                proof { assert(entry.policy_names.deep_view() =~= old(acc)@[i as int].policy_names.deep_view().push(policy@)); }
            }
            acc.insert(i, entry);
            proof {
                assert(protection_entries(acc@) =~= add_protection(protection_entries(old(acc)@), c));
            }
        },
        None => {
            let mut names: Vec<String> = Vec::new();
            names.push(policy.clone());
            let mut merged = BranchProtectionPatch::default();
            merged.merge(patch.clone());
            acc.push(BranchProtectionAction {
                repo_name: repo.clone(),
                branch: branch.clone(),
                policy_names: names,
                patch: merged,
                action: SettingsActionKind::DryRun,
                error: None,
            });
            proof {
                assert(names.deep_view() =~= seq![policy@]);
                assert(protection_entries(acc@) =~= add_protection(protection_entries(old(acc)@), c));
            }
        },
    }
}

fn add_result(
    settings: &mut Vec<SettingsAction>,
    protection: &mut Vec<BranchProtectionAction>,
    policy: &String,
    rr: &RepoResult,
)
    requires
        all_dry_settings(old(settings)@),
        all_dry_protections(old(protection)@),
    ensures
        all_dry_settings(final(settings)@),
        all_dry_protections(final(protection)@),
        settings_entries(final(settings)@) == group_settings(
            settings_entries(old(settings)@),
            settings_of_rems(rr.repo_name@, policy@, remediations_of(rr.outcome)),
        ),
        protection_entries(final(protection)@) == group_protections(
            protection_entries(old(protection)@),
            protections_of_rems(rr.repo_name@, policy@, remediations_of(rr.outcome)),
        ),
{
    let rems = match &rr.outcome {
        RepoOutcome::Fail { remediations, .. } => remediations,
        _ => {
            proof {
                assert(settings_of_rems(rr.repo_name@, policy@, Seq::empty()) =~= Seq::empty());
                assert(protections_of_rems(rr.repo_name@, policy@, Seq::empty()) =~= Seq::empty());
            }
            return;
        },
    };
    let ghost s0 = settings_entries(settings@);
    let ghost p0 = protection_entries(protection@);
    let ghost repo = rr.repo_name@;
    for k in 0..rems.len()
        invariant
            rems@ == remediations_of(rr.outcome),
            repo == rr.repo_name@,
            all_dry_settings(settings@),
            all_dry_protections(protection@),
            settings_entries(settings@) == group_settings(s0, settings_of_rems(repo, policy@, rems@.take(k as int))),
            protection_entries(protection@) == group_protections(p0, protections_of_rems(repo, policy@, rems@.take(k as int))),
    {
        let ghost before_s = settings_of_rems(repo, policy@, rems@.take(k as int));
        let ghost before_p = protections_of_rems(repo, policy@, rems@.take(k as int));
        proof {
            assert(rems@.take(k + 1).drop_last() =~= rems@.take(k as int));
            assert(rems@.take(k + 1).last() == rems@[k as int]);
        }
        match &rems[k].remediation {
            Remediation::RepoSettings { patch, .. } => {
                add_settings_exec(settings, &rr.repo_name, policy, patch);
                proof {
                    let c = SettingsContribution { repo, policy: policy@, patch: *patch };
                    assert(settings_of_rems(repo, policy@, rems@.take(k + 1)) == before_s + seq![c]);
                    lemma_group_settings_append(s0, before_s, seq![c]);
                    assert(seq![c].drop_last() =~= Seq::<SettingsContribution>::empty());
                    assert(group_settings(group_settings(s0, before_s), Seq::empty()) == group_settings(s0, before_s));
                    assert(group_settings(group_settings(s0, before_s), seq![c]) == add_settings(group_settings(s0, before_s), c));
                    assert(protections_of_rems(repo, policy@, rems@.take(k + 1)) =~= before_p);
                }
            },
            Remediation::BranchProtection { branch, patch, .. } => {
                add_protection_exec(protection, &rr.repo_name, branch, policy, patch);
                proof {
                    let c = ProtectionContribution { repo, branch: branch@, policy: policy@, patch: patch@ };
                    assert(protections_of_rems(repo, policy@, rems@.take(k + 1)) == before_p + seq![c]);
                    lemma_group_protections_append(p0, before_p, seq![c]);
                    assert(seq![c].drop_last() =~= Seq::<ProtectionContribution>::empty());
                    assert(group_protections(group_protections(p0, before_p), Seq::empty()) == group_protections(p0, before_p));
                    assert(group_protections(group_protections(p0, before_p), seq![c]) == add_protection(group_protections(p0, before_p), c));
                    assert(settings_of_rems(repo, policy@, rems@.take(k + 1)) =~= before_s);
                }
            },
            _ => {
                proof {
                    assert(settings_of_rems(repo, policy@, rems@.take(k + 1)) =~= before_s);
                    assert(protections_of_rems(repo, policy@, rems@.take(k + 1)) =~= before_p);
                }
            },
        }
    }
    proof { assert(rems@.take(rems@.len() as int) =~= rems@); }
}

fn add_policy(
    settings: &mut Vec<SettingsAction>,
    protection: &mut Vec<BranchProtectionAction>,
    pr: &PolicyReport,
)
    requires
        all_dry_settings(old(settings)@),
        all_dry_protections(old(protection)@),
    ensures
        all_dry_settings(final(settings)@),
        all_dry_protections(final(protection)@),
        settings_entries(final(settings)@) == group_settings(
            settings_entries(old(settings)@),
            settings_of_results(pr.policy_name@, pr.repo_results@),
        ),
        protection_entries(final(protection)@) == group_protections(
            protection_entries(old(protection)@),
            protections_of_results(pr.policy_name@, pr.repo_results@),
        ),
{
    let ghost s0 = settings_entries(settings@);
    let ghost p0 = protection_entries(protection@);
    let rs = &pr.repo_results;
    for j in 0..rs.len()
        invariant
            rs@ == pr.repo_results@,
            all_dry_settings(settings@),
            all_dry_protections(protection@),
            settings_entries(settings@) == group_settings(s0, settings_of_results(pr.policy_name@, rs@.take(j as int))),
            protection_entries(protection@) == group_protections(p0, protections_of_results(pr.policy_name@, rs@.take(j as int))),
    {
        let ghost before_s = settings_of_results(pr.policy_name@, rs@.take(j as int));
        let ghost before_p = protections_of_results(pr.policy_name@, rs@.take(j as int));
        proof { assert(rs@.take(j + 1).drop_last() =~= rs@.take(j as int)); }
        add_result(settings, protection, &pr.policy_name, &rs[j]);
        proof {
            lemma_group_settings_append(s0, before_s, settings_of_rems(rs@[j as int].repo_name@, pr.policy_name@, remediations_of(rs@[j as int].outcome)));
            lemma_group_protections_append(p0, before_p, protections_of_rems(rs@[j as int].repo_name@, pr.policy_name@, remediations_of(rs@[j as int].outcome)));
        }
    }
    proof { assert(rs@.take(rs@.len() as int) =~= rs@); }
}

/// Plan all cross-policy API actions implied by a check [`Report`].
///
/// Returns `(settings, branch_protection)` lists of would-apply actions, one
/// entry per repo and per (repo, branch) respectively, in order of first
/// contribution. Entries with an empty patch after merging are dropped.
pub fn plan_apply_actions(report: &Report) -> (res: (Vec<SettingsAction>, Vec<BranchProtectionAction>))
    ensures
        settings_entries(res.0@) == planned_settings(*report),
        protection_entries(res.1@) == planned_protections(*report),
        all_dry_settings(res.0@),
        all_dry_protections(res.1@),
{
    let mut settings: Vec<SettingsAction> = Vec::new();
    let mut protection: Vec<BranchProtectionAction> = Vec::new();
    let ps = &report.results;
    proof {
        assert(settings_entries(settings@) =~= Seq::empty());
        assert(protection_entries(protection@) =~= Seq::empty());
    }
    for i in 0..ps.len()
        invariant
            ps@ == report.results@,
            all_dry_settings(settings@),
            all_dry_protections(protection@),
            settings_entries(settings@) == group_settings(Seq::empty(), settings_of_policies(ps@.take(i as int))),
            protection_entries(protection@) == group_protections(Seq::empty(), protections_of_policies(ps@.take(i as int))),
    {
        let ghost before_s = settings_of_policies(ps@.take(i as int));
        let ghost before_p = protections_of_policies(ps@.take(i as int));
        proof { assert(ps@.take(i + 1).drop_last() =~= ps@.take(i as int)); }
        add_policy(&mut settings, &mut protection, &ps[i]);
        proof {
            lemma_group_settings_append(Seq::empty(), before_s, settings_of_results(ps@[i as int].policy_name@, ps@[i as int].repo_results@));
            lemma_group_protections_append(Seq::empty(), before_p, protections_of_results(ps@[i as int].policy_name@, ps@[i as int].repo_results@));
        }
    }
    proof { assert(ps@.take(ps@.len() as int) =~= ps@); }
    let settings = drop_empty_settings(settings);
    let protection = drop_empty_protections(protection);
    (settings, protection)
}

fn drop_empty_settings(v: Vec<SettingsAction>) -> (res: Vec<SettingsAction>)
    requires
        all_dry_settings(v@),
    ensures
        all_dry_settings(res@),
        settings_entries(res@) == nonempty_settings(settings_entries(v@)),
{
    let mut res: Vec<SettingsAction> = Vec::new();
    let mut v = v;
    let ghost orig = settings_entries(v@);
    let ghost orig_v = v@;
    let mut k: usize = 0;
    let n = v.len();
    while v.len() > 0
        invariant
            n == orig_v.len(),
            k + v@.len() == n,
            orig == settings_entries(orig_v),
            all_dry_settings(orig_v),
            v@ == orig_v.skip(k as int),
            all_dry_settings(res@),
            settings_entries(res@) == nonempty_settings(orig.take(k as int)),
        decreases v@.len(),
    {
        let a = v.remove(0);
        proof {
            assert(a == orig_v[k as int]);
            assert(orig.take(k + 1).drop_last() =~= orig.take(k as int));
        }
        if !a.patch.is_empty() {
            res.push(a);
            proof { assert(settings_entries(res@) =~= nonempty_settings(orig.take(k as int)).push(settings_entry_of(a))); }
        }
        k = k + 1;
    }
    proof { assert(orig.take(n as int) =~= orig); }
    res
}

fn drop_empty_protections(v: Vec<BranchProtectionAction>) -> (res: Vec<BranchProtectionAction>)
    requires
        all_dry_protections(v@),
    ensures
        all_dry_protections(res@),
        protection_entries(res@) == nonempty_protections(protection_entries(v@)),
{
    let mut res: Vec<BranchProtectionAction> = Vec::new();
    let mut v = v;
    let ghost orig = protection_entries(v@);
    let ghost orig_v = v@;
    let mut k: usize = 0;
    let n = v.len();
    while v.len() > 0
        invariant
            n == orig_v.len(),
            k + v@.len() == n,
            orig == protection_entries(orig_v),
            all_dry_protections(orig_v),
            v@ == orig_v.skip(k as int),
            all_dry_protections(res@),
            protection_entries(res@) == nonempty_protections(orig.take(k as int)),
        decreases v@.len(),
    {
        let a = v.remove(0);
        proof {
            assert(a == orig_v[k as int]);
            assert(orig.take(k + 1).drop_last() =~= orig.take(k as int));
        }
        if !a.patch.is_empty() {
            res.push(a);
            proof { assert(protection_entries(res@) =~= nonempty_protections(orig.take(k as int)).push(protection_entry_of(a))); }
        }
        k = k + 1;
    }
    proof { assert(orig.take(n as int) =~= orig); }
    res
}


/// No two aggregates are for the same repository, and none names a policy twice.
pub open spec fn settings_distinct(es: Seq<SettingsEntry>) -> bool {
    &&& forall|i: int, j: int| 0 <= i < j < es.len() ==> (#[trigger] es[i]).repo != (#[trigger] es[j]).repo
    &&& forall|i: int| 0 <= i < es.len() ==> (#[trigger] es[i]).policies.no_duplicates()
}

/// No two aggregates are for the same (repository, branch), and none names a policy twice.
pub open spec fn protections_distinct(es: Seq<ProtectionEntry>) -> bool {
    &&& forall|i: int, j: int| 0 <= i < j < es.len() ==> !((#[trigger] es[i]).repo == (#[trigger] es[j]).repo
        && es[i].branch == es[j].branch)
    &&& forall|i: int| 0 <= i < es.len() ==> (#[trigger] es[i]).policies.no_duplicates()
}

proof fn lemma_find_settings(acc: Seq<SettingsEntry>, repo: Seq<char>)
    ensures
        find_settings(acc, repo) == -1 <==> forall|i: int| 0 <= i < acc.len() ==> (#[trigger] acc[i]).repo != repo,
        find_settings(acc, repo) >= 0 ==> find_settings(acc, repo) < acc.len() && acc[find_settings(acc, repo)].repo == repo,
        find_settings(acc, repo) >= -1,
    decreases acc.len(),
{
    if acc.len() > 0 {
        lemma_find_settings(acc.drop_last(), repo);
        assert forall|i: int| 0 <= i < acc.len() - 1 implies acc.drop_last()[i] == #[trigger] acc[i] by {}
    }
}

proof fn lemma_find_protection(acc: Seq<ProtectionEntry>, repo: Seq<char>, branch: Seq<char>)
    ensures
        find_protection(acc, repo, branch) == -1 <==> forall|i: int| 0 <= i < acc.len() ==> !((#[trigger] acc[i]).repo == repo
            && acc[i].branch == branch),
        find_protection(acc, repo, branch) >= 0 ==> find_protection(acc, repo, branch) < acc.len()
            && acc[find_protection(acc, repo, branch)].repo == repo && acc[find_protection(acc, repo, branch)].branch == branch,
        find_protection(acc, repo, branch) >= -1,
    decreases acc.len(),
{
    if acc.len() > 0 {
        lemma_find_protection(acc.drop_last(), repo, branch);
        assert forall|i: int| 0 <= i < acc.len() - 1 implies acc.drop_last()[i] == #[trigger] acc[i] by {}
    }
}

proof fn lemma_add_name(names: Seq<Seq<char>>, n: Seq<char>)
    requires
        names.no_duplicates(),
    ensures
        add_name(names, n).no_duplicates(),
{
    if !names.contains(n) {
        let r = names.push(n);
        assert forall|i: int, j: int| 0 <= i < r.len() && 0 <= j < r.len() && i != j implies r[i] != r[j] by {
            if i == names.len() as int {
                assert(names[j] == r[j]);
            } else if j == names.len() as int {
                assert(names[i] == r[i]);
            }
        }
    }
}

proof fn lemma_group_settings_distinct(acc: Seq<SettingsEntry>, cs: Seq<SettingsContribution>)
    requires
        settings_distinct(acc),
    ensures
        settings_distinct(group_settings(acc, cs)),
    decreases cs.len(),
{
    if cs.len() > 0 {
        lemma_group_settings_distinct(acc, cs.drop_last());
        let g = group_settings(acc, cs.drop_last());
        let c = cs.last();
        lemma_find_settings(g, c.repo);
        let i = find_settings(g, c.repo);
        if i >= 0 {
            lemma_add_name(g[i].policies, c.policy);
        } else {
            assert(seq![c.policy].no_duplicates());
        }
        let r = add_settings(g, c);
        assert forall|a: int, b: int| 0 <= a < b < r.len() implies (#[trigger] r[a]).repo != (#[trigger] r[b]).repo by {
            if i < 0 && b == g.len() {
                assert(g[a].repo != c.repo);
            } else {
                assert(r[a].repo == g[a].repo && r[b].repo == g[b].repo);
            }
        }
    }
}

proof fn lemma_group_protections_distinct(acc: Seq<ProtectionEntry>, cs: Seq<ProtectionContribution>)
    requires
        protections_distinct(acc),
    ensures
        protections_distinct(group_protections(acc, cs)),
    decreases cs.len(),
{
    if cs.len() > 0 {
        lemma_group_protections_distinct(acc, cs.drop_last());
        let g = group_protections(acc, cs.drop_last());
        let c = cs.last();
        lemma_find_protection(g, c.repo, c.branch);
        let i = find_protection(g, c.repo, c.branch);
        if i >= 0 {
            lemma_add_name(g[i].policies, c.policy);
        } else {
            assert(seq![c.policy].no_duplicates());
        }
        let r = add_protection(g, c);
        assert forall|a: int, b: int| 0 <= a < b < r.len() implies !((#[trigger] r[a]).repo == (#[trigger] r[b]).repo
            && r[a].branch == r[b].branch) by {
            if i < 0 && b == g.len() {
                assert(!(g[a].repo == c.repo && g[a].branch == c.branch));
            } else {
                assert(r[a].repo == g[a].repo && r[b].repo == g[b].repo);
                assert(r[a].branch == g[a].branch && r[b].branch == g[b].branch);
            }
        }
    }
}

proof fn lemma_nonempty_settings(es: Seq<SettingsEntry>)
    requires
        settings_distinct(es),
    ensures
        settings_distinct(nonempty_settings(es)),
        forall|k: int| 0 <= k < nonempty_settings(es).len() ==> (#[trigger] nonempty_settings(es)[k]).patch
            != RepoSettingsPatch::spec_empty(),
        forall|k: int| 0 <= k < nonempty_settings(es).len() ==> es.contains(#[trigger] nonempty_settings(es)[k]),
    decreases es.len(),
{
    if es.len() > 0 {
        let d = es.drop_last();
        assert(settings_distinct(d)) by {
            assert forall|i: int, j: int| 0 <= i < j < d.len() implies (#[trigger] d[i]).repo != (#[trigger] d[j]).repo by {
                assert(d[i] == es[i] && d[j] == es[j]);
            }
            assert forall|i: int| 0 <= i < d.len() implies (#[trigger] d[i]).policies.no_duplicates() by {
                assert(d[i] == es[i]);
            }
        }
        lemma_nonempty_settings(d);
        let n = nonempty_settings(d);
        assert forall|k: int| 0 <= k < n.len() implies es.contains(#[trigger] n[k]) by {
            let j = choose|j: int| 0 <= j < d.len() && d[j] == n[k];
            assert(es[j] == n[k]);
        }
        if es.last().patch != RepoSettingsPatch::spec_empty() {
            let r = n.push(es.last());
            assert forall|a: int, b: int| 0 <= a < b < r.len() implies (#[trigger] r[a]).repo != (#[trigger] r[b]).repo by {
                if b == n.len() {
                    let j = choose|j: int| 0 <= j < d.len() && d[j] == n[a];
                    assert(es[j] == n[a]);
                    assert(es[es.len() - 1] == es.last());
                }
            }
            assert(es[es.len() - 1] == es.last());
        }
    }
}

proof fn lemma_nonempty_protections(es: Seq<ProtectionEntry>)
    requires
        protections_distinct(es),
    ensures
        protections_distinct(nonempty_protections(es)),
        forall|k: int| 0 <= k < nonempty_protections(es).len() ==> (#[trigger] nonempty_protections(es)[k]).patch
            != BranchProtectionPatchView::empty(),
        forall|k: int| 0 <= k < nonempty_protections(es).len() ==> es.contains(#[trigger] nonempty_protections(es)[k]),
    decreases es.len(),
{
    if es.len() > 0 {
        let d = es.drop_last();
        assert(protections_distinct(d)) by {
            assert forall|i: int, j: int| 0 <= i < j < d.len() implies !((#[trigger] d[i]).repo == (#[trigger] d[j]).repo
                && d[i].branch == d[j].branch) by {
                assert(d[i] == es[i] && d[j] == es[j]);
            }
            assert forall|i: int| 0 <= i < d.len() implies (#[trigger] d[i]).policies.no_duplicates() by {
                assert(d[i] == es[i]);
            }
        }
        lemma_nonempty_protections(d);
        let n = nonempty_protections(d);
        assert forall|k: int| 0 <= k < n.len() implies es.contains(#[trigger] n[k]) by {
            let j = choose|j: int| 0 <= j < d.len() && d[j] == n[k];
            assert(es[j] == n[k]);
        }
        if es.last().patch != BranchProtectionPatchView::empty() {
            let r = n.push(es.last());
            assert forall|a: int, b: int| 0 <= a < b < r.len() implies !((#[trigger] r[a]).repo == (#[trigger] r[b]).repo
                && r[a].branch == r[b].branch) by {
                if b == n.len() {
                    let j = choose|j: int| 0 <= j < d.len() && d[j] == n[a];
                    assert(es[j] == n[a]);
                    assert(es[es.len() - 1] == es.last());
                }
            }
            assert(es[es.len() - 1] == es.last());
        }
    }
}

/// One settings update per repository: the planned updates name each repository once, each
/// lists its contributing policies once, and none is an empty patch.
pub proof fn law_one_settings_update_per_repo(r: Report)
    ensures
        settings_distinct(planned_settings(r)),
        forall|k: int| 0 <= k < planned_settings(r).len() ==> (#[trigger] planned_settings(r)[k]).patch
            != RepoSettingsPatch::spec_empty(),
{
    lemma_group_settings_distinct(Seq::empty(), settings_of_policies(r.results@));
    lemma_nonempty_settings(group_settings(Seq::empty(), settings_of_policies(r.results@)));
}

/// One protection update per (repository, branch): the planned updates name each pair once,
/// each lists its contributing policies once, and none is an empty patch.
pub proof fn law_one_protection_update_per_branch(r: Report)
    ensures
        protections_distinct(planned_protections(r)),
        forall|k: int| 0 <= k < planned_protections(r).len() ==> (#[trigger] planned_protections(r)[k]).patch
            != BranchProtectionPatchView::empty(),
{
    lemma_group_protections_distinct(Seq::empty(), protections_of_policies(r.results@));
    lemma_nonempty_protections(group_protections(Seq::empty(), protections_of_policies(r.results@)));
}


/// The ledger after each update of `planned` was recorded in turn, the provider's outcome for
/// update `i` being `outcomes[i]`.
pub open spec fn settings_fold(v: LedgerView, dry_run: bool, planned: Seq<SettingsAction>, outcomes: Seq<Result<(), String>>) -> LedgerView
    decreases planned.len(),
{
    if planned.len() == 0 {
        v
    } else {
        settings_step(settings_fold(v, dry_run, planned.drop_last(), outcomes), dry_run, planned.last(), outcomes[planned.len() - 1])
    }
}

/// The ledger after each branch-protection update of `planned` was recorded in turn.
pub open spec fn protection_fold(v: LedgerView, dry_run: bool, planned: Seq<BranchProtectionAction>, outcomes: Seq<Result<(), String>>) -> LedgerView
    decreases planned.len(),
{
    if planned.len() == 0 {
        v
    } else {
        protection_step(protection_fold(v, dry_run, planned.drop_last(), outcomes), dry_run, planned.last(), outcomes[planned.len() - 1])
    }
}

proof fn lemma_settings_fold_dry(v: LedgerView, planned: Seq<SettingsAction>, outcomes: Seq<Result<(), String>>)
    requires
        all_dry_settings(planned),
    ensures
        settings_fold(v, true, planned, outcomes) == (LedgerView { settings_applied: v.settings_applied + planned, ..v }),
    decreases planned.len(),
{
    if planned.len() > 0 {
        let d = planned.drop_last();
        assert forall|i: int| 0 <= i < d.len() implies (#[trigger] d[i]).action == SettingsActionKind::DryRun && d[i].error is None by {
            assert(d[i] == planned[i]);
        }
        lemma_settings_fold_dry(v, d, outcomes);
        let a = planned.last();
        assert(a.action == SettingsActionKind::DryRun && a.error is None);
        assert((SettingsAction { action: SettingsActionKind::DryRun, error: None, ..a }) == a);
        assert((v.settings_applied + d).push(a) =~= v.settings_applied + planned);
    }
}

proof fn lemma_protection_fold_dry(v: LedgerView, planned: Seq<BranchProtectionAction>, outcomes: Seq<Result<(), String>>)
    requires
        all_dry_protections(planned),
    ensures
        protection_fold(v, true, planned, outcomes) == (LedgerView { protection_applied: v.protection_applied + planned, ..v }),
    decreases planned.len(),
{
    if planned.len() > 0 {
        let d = planned.drop_last();
        assert forall|i: int| 0 <= i < d.len() implies (#[trigger] d[i]).action == SettingsActionKind::DryRun && d[i].error is None by {
            assert(d[i] == planned[i]);
        }
        lemma_protection_fold_dry(v, d, outcomes);
        let a = planned.last();
        assert(a.action == SettingsActionKind::DryRun && a.error is None);
        assert((BranchProtectionAction { action: SettingsActionKind::DryRun, error: None, ..a }) == a);
        assert((v.protection_applied + d).push(a) =~= v.protection_applied + planned);
    }
}

/// Check mode shows exactly the updates a dry-run apply records: recording, in a dry run,
/// every planned settings update and then every planned branch-protection update of a report
/// adds the plan to the ledger unchanged, whatever outcomes are handed in, and touches
/// nothing else; from an empty ledger the recorded updates are the report's plan.
pub proof fn law_dry_run_records_the_plan(
    report: Report,
    v: LedgerView,
    settings: Seq<SettingsAction>,
    protections: Seq<BranchProtectionAction>,
    settings_outcomes: Seq<Result<(), String>>,
    protection_outcomes: Seq<Result<(), String>>,
)
    requires
        settings_entries(settings) == planned_settings(report),
        protection_entries(protections) == planned_protections(report),
        all_dry_settings(settings),
        all_dry_protections(protections),
    ensures
        protection_fold(settings_fold(v, true, settings, settings_outcomes), true, protections, protection_outcomes) == (LedgerView {
            settings_applied: v.settings_applied + settings,
            protection_applied: v.protection_applied + protections,
            ..v
        }),
        v.settings_applied.len() == 0 ==> settings_entries(v.settings_applied + settings) == planned_settings(report),
        v.protection_applied.len() == 0 ==> protection_entries(v.protection_applied + protections) == planned_protections(report),
{
    lemma_settings_fold_dry(v, settings, settings_outcomes);
    let w = LedgerView { settings_applied: v.settings_applied + settings, ..v };
    lemma_protection_fold_dry(w, protections, protection_outcomes);
    if v.settings_applied.len() == 0 {
        assert(v.settings_applied + settings =~= settings);
    }
    if v.protection_applied.len() == 0 {
        assert(v.protection_applied + protections =~= protections);
    }
}


/// A planned autolink update in the abstract: the repository, the policy that asks for it,
/// and the wanted link.
pub struct AutolinkEntry {
    pub repo: Seq<char>,
    pub policy: Seq<char>,
    pub key_prefix: Seq<char>,
    pub url_template: Seq<char>,
    pub is_alphanumeric: bool,
}

/// The autolinks asked for among `rems`, in order.
pub open spec fn autolinks_of_rems(repo: Seq<char>, policy: Seq<char>, rems: Seq<AttributedRemediation>) -> Seq<AutolinkEntry>
    decreases rems.len(),
{
    if rems.len() == 0 {
        Seq::empty()
    } else {
        autolinks_of_rems(repo, policy, rems.drop_last()) + match rems.last().remediation {
            Remediation::Autolink { spec, .. } => seq![AutolinkEntry {
                repo,
                policy,
                key_prefix: spec.key_prefix@,
                url_template: spec.url_template@,
                is_alphanumeric: spec.is_alphanumeric,
            }],
            _ => Seq::empty(),
        }
    }
}

/// The autolinks asked for by one policy's failing results, in order.
pub open spec fn autolinks_of_results(policy: Seq<char>, rs: Seq<RepoResult>) -> Seq<AutolinkEntry>
    decreases rs.len(),
{
    if rs.len() == 0 {
        Seq::empty()
    } else {
        autolinks_of_results(policy, rs.drop_last()) + autolinks_of_rems(rs.last().repo_name@, policy, remediations_of(rs.last().outcome))
    }
}

/// The planned autolink updates of a report: one per autolink remediation, policy by policy,
/// result by result.
pub open spec fn planned_autolinks(ps: Seq<PolicyReport>) -> Seq<AutolinkEntry>
    decreases ps.len(),
{
    if ps.len() == 0 {
        Seq::empty()
    } else {
        planned_autolinks(ps.drop_last()) + autolinks_of_results(ps.last().policy_name@, ps.last().repo_results@)
    }
}

/// The abstract update an autolink action stands for.
pub open spec fn autolink_entry_of(a: AutolinkAction) -> AutolinkEntry {
    AutolinkEntry {
        repo: a.repo_name@,
        policy: a.policy_name@,
        key_prefix: a.spec.key_prefix@,
        url_template: a.spec.url_template@,
        is_alphanumeric: a.spec.is_alphanumeric,
    }
}

/// The abstract updates of a list of autolink actions.
pub open spec fn autolink_entries(s: Seq<AutolinkAction>) -> Seq<AutolinkEntry> {
    s.map_values(|a: AutolinkAction| autolink_entry_of(a))
}

/// Every action is a preview with no error.
pub open spec fn all_dry_autolinks(s: Seq<AutolinkAction>) -> bool {
    forall|i: int| 0 <= i < s.len() ==> (#[trigger] s[i]).action == SettingsActionKind::DryRun && s[i].error is None
}

fn push_autolinks_of_result(out: &mut Vec<AutolinkAction>, policy: &String, rr: &RepoResult)
    requires
        all_dry_autolinks(old(out)@),
    ensures
        all_dry_autolinks(final(out)@),
        autolink_entries(final(out)@) == autolink_entries(old(out)@) + autolinks_of_rems(rr.repo_name@, policy@, remediations_of(rr.outcome)),
{
    let ghost start = autolink_entries(out@);
    let rems = match &rr.outcome {
        RepoOutcome::Fail { remediations, .. } => remediations,
        _ => {
            proof { assert(autolinks_of_rems(rr.repo_name@, policy@, Seq::empty()) =~= Seq::empty()); assert(start + Seq::empty() =~= start); }
            return;
        },
    };
    proof { assert(start + autolinks_of_rems(rr.repo_name@, policy@, rems@.take(0)) =~= start); }
    for k in 0..rems.len()
        invariant
            rems@ == remediations_of(rr.outcome),
            all_dry_autolinks(out@),
            autolink_entries(out@) == start + autolinks_of_rems(rr.repo_name@, policy@, rems@.take(k as int)),
    {
        proof { assert(rems@.take(k + 1).drop_last() =~= rems@.take(k as int)); }
        let ghost before = out@;
        match &rems[k].remediation {
            Remediation::Autolink { spec, .. } => {
                out.push(AutolinkAction {
                    repo_name: rr.repo_name.clone(),
                    policy_name: policy.clone(),
                    spec: spec.clone(),
                    action: SettingsActionKind::DryRun,
                    error: None,
                });
                proof {
                    assert(autolink_entries(out@) =~= autolink_entries(before).push(autolink_entry_of(out@.last())));
                }
            },
            _ => {},
        }
        proof {
            let n = autolinks_of_rems(rr.repo_name@, policy@, rems@.take(k as int));
            assert(autolinks_of_rems(rr.repo_name@, policy@, rems@.take(k + 1)) == n + match rems@[k as int].remediation {
                Remediation::Autolink { spec, .. } => seq![AutolinkEntry {
                    repo: rr.repo_name@,
                    policy: policy@,
                    key_prefix: spec.key_prefix@,
                    url_template: spec.url_template@,
                    is_alphanumeric: spec.is_alphanumeric,
                }],
                _ => Seq::<AutolinkEntry>::empty(),
            });
            assert(autolink_entries(out@) =~= start + autolinks_of_rems(rr.repo_name@, policy@, rems@.take(k + 1)));
        }
    }
    proof { assert(rems@.take(rems@.len() as int) =~= rems@); }
}

/// Plan the autolink updates a check report asks for: one preview per autolink remediation
/// of a failing result, policy by policy, result by result.
pub fn plan_autolinks(report: &Report) -> (res: Vec<AutolinkAction>)
    ensures
        autolink_entries(res@) == planned_autolinks(report.results@),
        all_dry_autolinks(res@),
{
    let mut out: Vec<AutolinkAction> = Vec::new();
    let ps = &report.results;
    proof { assert(autolink_entries(out@) =~= Seq::empty()); }
    for i in 0..ps.len()
        invariant
            ps@ == report.results@,
            all_dry_autolinks(out@),
            autolink_entries(out@) == planned_autolinks(ps@.take(i as int)),
    {
        proof { assert(ps@.take(i + 1).drop_last() =~= ps@.take(i as int)); }
        let ghost start = autolink_entries(out@);
        let rs = &ps[i].repo_results;
        proof { assert(start + autolinks_of_results(ps@[i as int].policy_name@, rs@.take(0)) =~= start); }
        for j in 0..rs.len()
            invariant
                ps@ == report.results@,
                i < ps@.len(),
                rs@ == ps@[i as int].repo_results@,
                all_dry_autolinks(out@),
                autolink_entries(out@) == start + autolinks_of_results(ps@[i as int].policy_name@, rs@.take(j as int)),
        {
            proof { assert(rs@.take(j + 1).drop_last() =~= rs@.take(j as int)); }
            push_autolinks_of_result(&mut out, &ps[i].policy_name, &rs[j]);
            proof {
                assert(start + autolinks_of_results(ps@[i as int].policy_name@, rs@.take(j + 1)) =~= start
                    + autolinks_of_results(ps@[i as int].policy_name@, rs@.take(j as int)) + autolinks_of_rems(
                    rs@[j as int].repo_name@,
                    ps@[i as int].policy_name@,
                    remediations_of(rs@[j as int].outcome),
                ));
            }
        }
        proof {
            assert(rs@.take(rs@.len() as int) =~= rs@);
            assert(autolink_entries(out@) =~= planned_autolinks(ps@.take(i + 1)));
        }
    }
    proof { assert(ps@.take(ps@.len() as int) =~= ps@); }
    out
}


/// The ledger after each autolink update of `planned` was recorded in turn.
pub open spec fn autolink_fold(v: LedgerView, dry_run: bool, planned: Seq<AutolinkAction>, outcomes: Seq<Result<(), String>>) -> LedgerView
    decreases planned.len(),
{
    if planned.len() == 0 {
        v
    } else {
        autolink_step(autolink_fold(v, dry_run, planned.drop_last(), outcomes), dry_run, planned.last(), outcomes[planned.len() - 1])
    }
}

/// A dry run records exactly the planned autolink updates of a report: recording each in
/// turn adds the plan to the ledger unchanged, whatever outcomes are handed in, and touches
/// nothing else.
pub proof fn law_dry_run_records_planned_autolinks(
    report: Report,
    v: LedgerView,
    planned: Seq<AutolinkAction>,
    outcomes: Seq<Result<(), String>>,
)
    requires
        autolink_entries(planned) == planned_autolinks(report.results@),
        all_dry_autolinks(planned),
    ensures
        autolink_fold(v, true, planned, outcomes) == (LedgerView { autolinks_applied: v.autolinks_applied + planned, ..v }),
        v.autolinks_applied.len() == 0 ==> autolink_entries(v.autolinks_applied + planned) == planned_autolinks(report.results@),
{
    lemma_autolink_fold_dry(v, planned, outcomes);
    if v.autolinks_applied.len() == 0 {
        assert(v.autolinks_applied + planned =~= planned);
    }
}

proof fn lemma_autolink_fold_dry(v: LedgerView, planned: Seq<AutolinkAction>, outcomes: Seq<Result<(), String>>)
    requires
        all_dry_autolinks(planned),
    ensures
        autolink_fold(v, true, planned, outcomes) == (LedgerView { autolinks_applied: v.autolinks_applied + planned, ..v }),
    decreases planned.len(),
{
    if planned.len() > 0 {
        let d = planned.drop_last();
        assert forall|i: int| 0 <= i < d.len() implies (#[trigger] d[i]).action == SettingsActionKind::DryRun && d[i].error is None by {
            assert(d[i] == planned[i]);
        }
        lemma_autolink_fold_dry(v, d, outcomes);
        let a = planned.last();
        assert(a.action == SettingsActionKind::DryRun && a.error is None);
        assert((AutolinkAction { action: SettingsActionKind::DryRun, error: None, ..a }) == a);
        assert((v.autolinks_applied + d).push(a) =~= v.autolinks_applied + planned);
    }
}

} // verus!
