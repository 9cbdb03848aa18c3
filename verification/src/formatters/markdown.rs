//! Markdown rendering of check and apply reports.

use vstd::prelude::*;
use vstd::string::*;

use crate::engine::executor::{ApplyReport, AutolinkAction, BranchProtectionAction, SettingsAction, SettingsActionKind};
use crate::error::CoreError;
use crate::formatter::{
    build_pr_action_map, entry_views, format_branch_protection_summary, format_pr_summary,
    format_settings_summary, group_by_repo, group_policies, group_view, groups_view, has_branch_protection_actions,
    has_settings_actions, lookup_action, lookup_rows, pr_summary, protection_summary, report_fits,
    settings_summary, action_map_rows, count_member_kind, Formatter, OutcomeKind, PolicyCounts, PolicyReport,
    PrActionEntry, RepoCounts, RepoGroup, RepoResult, Report,
};
use crate::formatters::{
    format_counts_line, format_rate, format_repo_counts, policies_word, policy_counts_line, rate_detail,
    repo_counts_text, status_label, status_text,
};
use crate::json::{branch_protection_patch_json, protection_patch_json, repo_patch_json, repo_settings_patch_json};
use crate::text::{concat3, dec, join, join_strings, push_dec};

verus! {

/// Renders reports as Markdown documents.
pub struct MarkdownFormatter;

/// The `## Overview` block of a report.
pub open spec fn md_overview(r: Report) -> Seq<char> {
    let s = r.summary;
    let ev = s.passing + s.failing;
    "## Overview\n\n"@ + "- Policies: "@ + dec(r.results@.len()) + "\n"@ + "- Repositories: "@ + dec(s.total_repos as nat)
        + "\n"@ + "- Pass: "@ + dec(s.passing as nat) + "\n"@ + "- Fail: "@ + dec(s.failing as nat) + "\n"@
        + "- Skip: "@ + dec(s.skipped as nat) + "\n"@ + "- Error: "@ + dec(s.errors as nat) + "\n"@ + if ev > 0 {
        "- **Success rate:** "@ + rate_detail(s.passing as nat, ev as nat, " "@) + "\n"@
    } else {
        "- **Success rate:** n/a (no repositories evaluated)\n"@
    }
}

/// The heading of a policy section: name, then the description as a quote when present.
pub open spec fn md_policy_head(p: PolicyReport) -> Seq<char> {
    "## Policy: "@ + p.policy_name@ + "\n"@ + (match p.description {
        Some(d) => "> "@ + d@ + "\n"@,
        None => Seq::empty(),
    }) + "\n"@
}

/// One check-table row.
pub open spec fn md_row(rr: RepoResult) -> Seq<char> {
    "| "@ + rr.repo_name@ + " | "@ + status_label(rr.outcome.spec_kind()) + " | "@ + rr.outcome.spec_text() + " |\n"@
}

/// The check-table rows of a policy's results, in order.
pub open spec fn md_rows(rs: Seq<RepoResult>) -> Seq<char>
    decreases rs.len(),
{
    if rs.len() == 0 { Seq::empty() } else { md_rows(rs.drop_last()) + md_row(rs.last()) }
}

/// The check-mode section of one policy.
pub open spec fn md_policy_check(p: PolicyReport) -> Seq<char> {
    md_policy_head(p) + if p.repo_results@.len() == 0 {
        "*(no repositories matched)*\n"@
    } else {
        "| Repository | Status | Detail |\n"@ + "|---|---|---|\n"@ + md_rows(p.repo_results@) + "\n"@
            + "**Policy summary:** "@ + policy_counts_line(p) + "\n"@
    }
}

/// The check-mode sections of all policies, each followed by a blank line.
pub open spec fn md_policies(ps: Seq<PolicyReport>) -> Seq<char>
    decreases ps.len(),
{
    if ps.len() == 0 { Seq::empty() } else { md_policies(ps.drop_last()) + md_policy_check(ps.last()) + "\n"@ }
}

/// The whole check-mode Markdown report.
pub open spec fn md_report(r: Report) -> Seq<char> {
    "# multipush Report\n\n"@ + md_policies(r.results@) + md_overview(r)
}

/// Number of members of a group whose outcome has kind `k`.
pub open spec fn group_count(ms: Seq<(Seq<char>, RepoResult)>, k: OutcomeKind) -> nat
    decreases ms.len(),
{
    if ms.len() == 0 {
        0
    } else {
        group_count(ms.drop_last(), k) + if ms.last().1.outcome.spec_kind() == k { 1nat } else { 0nat }
    }
}

/// One member line of a repository group.
pub open spec fn md_member(m: (Seq<char>, RepoResult)) -> Seq<char> {
    "- "@ + status_label(m.1.outcome.spec_kind()) + " **"@ + m.0 + "** — "@ + m.1.outcome.spec_text() + "\n"@
}

/// The member lines of a repository group, in order.
pub open spec fn md_members(ms: Seq<(Seq<char>, RepoResult)>) -> Seq<char>
    decreases ms.len(),
{
    if ms.len() == 0 { Seq::empty() } else { md_members(ms.drop_last()) + md_member(ms.last()) }
}

/// The section of one repository in the by-repo view.
pub open spec fn md_group(g: (Seq<char>, Seq<(Seq<char>, RepoResult)>)) -> Seq<char> {
    let ms = g.1;
    "### "@ + g.0 + " — "@ + dec(ms.len()) + " "@ + policies_word(ms.len()) + " ("@ + repo_counts_text(
        group_count(ms, OutcomeKind::Pass),
        group_count(ms, OutcomeKind::Fail),
        group_count(ms, OutcomeKind::Skip),
        group_count(ms, OutcomeKind::Error),
    ) + ")\n"@ + "\n"@ + md_members(ms) + "\n"@
}

/// The sections of all repository groups, in order.
pub open spec fn md_groups(gs: Seq<(Seq<char>, Seq<(Seq<char>, RepoResult)>)>) -> Seq<char>
    decreases gs.len(),
{
    if gs.len() == 0 { Seq::empty() } else { md_groups(gs.drop_last()) + md_group(gs.last()) }
}

/// The whole by-repo Markdown report.
pub open spec fn md_by_repo(r: Report) -> Seq<char> {
    "# multipush Report (by repo)\n\n"@ + md_groups(group_policies(r.results@)) + md_overview(r)
}

/// The (action, PR) cells of an apply row: the recorded action, or `-` twice.
pub open spec fn recorded_cells(
    rows: Seq<(Seq<char>, Seq<char>, Seq<char>, Seq<char>)>,
    repo: Seq<char>,
    policy: Seq<char>,
) -> (Seq<char>, Seq<char>) {
    match lookup_rows(rows, repo, policy) {
        Some(c) => c,
        None => ("-"@, "-"@),
    }
}

/// One apply-table row.
pub open spec fn md_apply_row(rows: Seq<(Seq<char>, Seq<char>, Seq<char>, Seq<char>)>, policy: Seq<char>, rr: RepoResult) -> Seq<char> {
    let c = recorded_cells(rows, rr.repo_name@, policy);
    "| "@ + rr.repo_name@ + " | "@ + status_label(rr.outcome.spec_kind()) + " | "@ + c.0 + " | "@ + c.1 + " |\n"@
}

/// The apply-table rows of a policy's results, in order.
pub open spec fn md_apply_rows(rows: Seq<(Seq<char>, Seq<char>, Seq<char>, Seq<char>)>, policy: Seq<char>, rs: Seq<RepoResult>) -> Seq<char>
    decreases rs.len(),
{
    if rs.len() == 0 {
        Seq::empty()
    } else {
        md_apply_rows(rows, policy, rs.drop_last()) + md_apply_row(rows, policy, rs.last())
    }
}

/// The apply-mode section of one policy, followed by a blank line.
pub open spec fn md_apply_policy(rows: Seq<(Seq<char>, Seq<char>, Seq<char>, Seq<char>)>, p: PolicyReport) -> Seq<char> {
    md_policy_head(p) + if p.repo_results@.len() == 0 {
        "*(no repositories matched)*\n"@ + "\n"@
    } else {
        "| Repository | Status | Action | PR |\n"@ + "|---|---|---|---|\n"@ + md_apply_rows(rows, p.policy_name@, p.repo_results@)
            + "\n"@ + "**Policy summary:** "@ + policy_counts_line(p) + "\n"@ + "\n"@
    }
}

/// The apply-mode sections of all policies.
pub open spec fn md_apply_policies(rows: Seq<(Seq<char>, Seq<char>, Seq<char>, Seq<char>)>, ps: Seq<PolicyReport>) -> Seq<char>
    decreases ps.len(),
{
    if ps.len() == 0 {
        Seq::empty()
    } else {
        md_apply_policies(rows, ps.drop_last()) + md_apply_policy(rows, ps.last())
    }
}

/// What a settings or protection update did, as a table cell.
pub open spec fn update_label(k: SettingsActionKind, what: Seq<char>) -> Seq<char> {
    match k {
        SettingsActionKind::Applied => what + " updated"@,
        SettingsActionKind::DryRun => "would update "@ + what,
        SettingsActionKind::Error => "error"@,
    }
}

/// One row of the settings-updates table.
pub open spec fn md_settings_row(a: SettingsAction, errored: bool) -> Seq<char> {
    "| "@ + a.repo_name@ + " | "@ + join(a.policy_names.deep_view(), ", "@) + " | "@ + (if errored {
        "error: "@ + match a.error {
            Some(e) => e@,
            None => "unknown"@,
        }
    } else {
        update_label(a.action, "settings"@)
    }) + " | `"@ + repo_patch_json(a.patch) + "` |\n"@
}

/// Rows of the settings-updates table.
pub open spec fn md_settings_rows(s: Seq<SettingsAction>, errored: bool) -> Seq<char>
    decreases s.len(),
{
    if s.len() == 0 { Seq::empty() } else { md_settings_rows(s.drop_last(), errored) + md_settings_row(s.last(), errored) }
}

/// One row of the protection-updates table.
pub open spec fn md_protection_row(a: BranchProtectionAction, errored: bool) -> Seq<char> {
    "| "@ + a.repo_name@ + " | "@ + a.branch@ + " | "@ + join(a.policy_names.deep_view(), ", "@) + " | "@ + (if errored {
        "error: "@ + match a.error {
            Some(e) => e@,
            None => "unknown"@,
        }
    } else {
        update_label(a.action, "protection"@)
    }) + " | `"@ + protection_patch_json(a.patch@) + "` |\n"@
}

/// Rows of the protection-updates table.
pub open spec fn md_protection_rows(s: Seq<BranchProtectionAction>, errored: bool) -> Seq<char>
    decreases s.len(),
{
    if s.len() == 0 {
        Seq::empty()
    } else {
        md_protection_rows(s.drop_last(), errored) + md_protection_row(s.last(), errored)
    }
}

/// The settings-updates section of an apply report, when it has any.
pub open spec fn md_settings_section(ar: ApplyReport) -> Seq<char> {
    if ar.settings_applied@.len() > 0 || ar.settings_errored@.len() > 0 {
        "## Repo settings updates\n\n"@ + "| Repository | Policies | Action | Patch |\n"@ + "|---|---|---|---|\n"@
            + md_settings_rows(ar.settings_applied@, false) + md_settings_rows(ar.settings_errored@, true) + "\n"@
    } else {
        Seq::empty()
    }
}

/// The protection-updates section of an apply report, when it has any.
pub open spec fn md_protection_section(ar: ApplyReport) -> Seq<char> {
    if ar.branch_protection_applied@.len() > 0 || ar.branch_protection_errored@.len() > 0 {
        "## Branch protection updates\n\n"@ + "| Repository | Branch | Policies | Action | Patch |\n"@
            + "|---|---|---|---|---|\n"@ + md_protection_rows(ar.branch_protection_applied@, false)
            + md_protection_rows(ar.branch_protection_errored@, true) + "\n"@
    } else {
        Seq::empty()
    }
}

/// The wanted link of an autolink action: its key prefix and the URL it points to.
pub open spec fn autolink_text(a: AutolinkAction) -> Seq<char> {
    a.spec.key_prefix@ + " -> "@ + a.spec.url_template@
}

/// One row of the autolink-updates table.
pub open spec fn md_autolink_row(a: AutolinkAction, errored: bool) -> Seq<char> {
    "| "@ + a.repo_name@ + " | "@ + a.policy_name@ + " | "@ + (if errored {
        "error: "@ + match a.error {
            Some(e) => e@,
            None => "unknown"@,
        }
    } else {
        update_label(a.action, "autolink"@)
    }) + " | `"@ + autolink_text(a) + "` |\n"@
}

/// Rows of the autolink-updates table.
pub open spec fn md_autolink_rows(s: Seq<AutolinkAction>, errored: bool) -> Seq<char>
    decreases s.len(),
{
    if s.len() == 0 { Seq::empty() } else { md_autolink_rows(s.drop_last(), errored) + md_autolink_row(s.last(), errored) }
}

/// The autolink-updates section of an apply report, when it has any.
pub open spec fn md_autolink_section(ar: ApplyReport) -> Seq<char> {
    if ar.autolinks_applied@.len() > 0 || ar.autolinks_errored@.len() > 0 {
        "## Autolink updates\n\n"@ + "| Repository | Policy | Action | Autolink |\n"@ + "|---|---|---|---|\n"@
            + md_autolink_rows(ar.autolinks_applied@, false) + md_autolink_rows(ar.autolinks_errored@, true) + "\n"@
    } else {
        Seq::empty()
    }
}

/// The whole apply-mode Markdown report.
pub open spec fn md_apply(ar: ApplyReport) -> Seq<char> {
    "# multipush Apply Report\n\n"@ + md_apply_policies(action_map_rows(ar), ar.report.results@)
        + md_settings_section(ar) + md_protection_section(ar) + md_autolink_section(ar) + md_apply_footer(ar)
}

fn autolink_row(a: &AutolinkAction, errored: bool) -> (s: String)
    ensures
        s@ == md_autolink_row(*a, errored),
{
    let mut out = concat3("| ", a.repo_name.as_str(), " | ");
    out.append(a.policy_name.as_str());
    out.append(" | ");
    if errored {
        out.append("error: ");
        match &a.error {
            Some(e) => out.append(e.as_str()),
            None => out.append("unknown"),
        }
    } else {
        match a.action {
            SettingsActionKind::Applied => out.append("autolink updated"),
            SettingsActionKind::DryRun => out.append("would update autolink"),
            SettingsActionKind::Error => out.append("error"),
        }
    }
    push_line3(&mut out, " | `", a.spec.key_prefix.as_str(), " -> ");
    push_line3(&mut out, a.spec.url_template.as_str(), "` |\n", "");
    proof {
        reveal_strlit("autolink updated");
        reveal_strlit("would update autolink");
        reveal_strlit("autolink");
        reveal_strlit(" updated");
        reveal_strlit("would update ");
        reveal_strlit("");
        assert("autolink updated"@ =~= "autolink"@ + " updated"@);
        assert("would update autolink"@ =~= "would update "@ + "autolink"@);
        assert(out@ =~= md_autolink_row(*a, errored));
    }
    out
}

fn autolink_rows(out: &mut String, actions: &Vec<AutolinkAction>, errored: bool)
    ensures
        final(out)@ == old(out)@ + md_autolink_rows(actions@, errored),
{
    let ghost start = out@;
    for i in 0..actions.len()
        invariant
            out@ == start + md_autolink_rows(actions@.take(i as int), errored),
    {
        proof { assert(actions@.take(i + 1).drop_last() =~= actions@.take(i as int)); }
        let row = autolink_row(&actions[i], errored);
        out.append(row.as_str());
    }
    proof { assert(actions@.take(actions@.len() as int) =~= actions@); }
}

fn autolink_section(ar: &ApplyReport) -> (s: String)
    ensures
        s@ == md_autolink_section(*ar),
{
    let mut out = String::new();
    if ar.autolinks_applied.len() > 0 || ar.autolinks_errored.len() > 0 {
        out.append("## Autolink updates\n\n");
        out.append("| Repository | Policy | Action | Autolink |\n");
        out.append("|---|---|---|---|\n");
        autolink_rows(&mut out, &ar.autolinks_applied, false);
        autolink_rows(&mut out, &ar.autolinks_errored, true);
        out.append("\n");
    }
    proof { assert(out@ =~= md_autolink_section(*ar)); }
    out
}

fn push_line3(out: &mut String, a: &str, b: &str, c: &str)
    ensures
        final(out)@ == old(out)@ + a@ + b@ + c@,
{
    out.append(a);
    out.append(b);
    out.append(c);
}

fn push_num_line(out: &mut String, label: &str, n: usize)
    ensures
        final(out)@ == old(out)@ + label@ + dec(n as nat) + "\n"@,
{
    out.append(label);
    push_dec(out, n);
    out.append("\n");
}

fn format_overview(r: &Report) -> (s: String)
    requires
        r.summary.passing + r.summary.failing <= usize::MAX,
    ensures
        s@ == md_overview(*r),
{
    let sm = &r.summary;
    let mut out = String::new();
    out.append("## Overview\n\n");
    push_num_line(&mut out, "- Policies: ", r.results.len());
    push_num_line(&mut out, "- Repositories: ", sm.total_repos);
    push_num_line(&mut out, "- Pass: ", sm.passing);
    push_num_line(&mut out, "- Fail: ", sm.failing);
    push_num_line(&mut out, "- Skip: ", sm.skipped);
    push_num_line(&mut out, "- Error: ", sm.errors);
    let ev = sm.evaluated();
    if ev > 0 {
        out.append("- **Success rate:** ");
        let rate = format_rate(sm.passing, ev);
        out.append(rate.as_str());
        out.append("%");
        out.append(" ");
        out.append("(");
        push_dec(&mut out, sm.passing);
        out.append(" pass / ");
        push_dec(&mut out, ev);
        out.append(" evaluated)");
        out.append("\n");
    } else {
        out.append("- **Success rate:** n/a (no repositories evaluated)\n");
    }
    proof {
        assert(out@ =~= md_overview(*r));
    }
    out
}

fn policy_head(p: &PolicyReport) -> (s: String)
    ensures
        s@ == md_policy_head(*p),
{
    let mut out = concat3("## Policy: ", p.policy_name.as_str(), "\n");
    if let Some(d) = &p.description {
        push_line3(&mut out, "> ", d.as_str(), "\n");
    }
    out.append("\n");
    proof { assert(out@ =~= md_policy_head(*p)); }
    out
}

fn format_policy_check(p: &PolicyReport) -> (s: String)
    ensures
        s@ == md_policy_check(*p),
{
    let mut out = policy_head(p);
    let rs = &p.repo_results;
    if rs.len() == 0 {
        out.append("*(no repositories matched)*\n");
        return out;
    }
    let ghost head = out@ + "| Repository | Status | Detail |\n"@ + "|---|---|---|\n"@;
    out.append("| Repository | Status | Detail |\n");
    out.append("|---|---|---|\n");
    for i in 0..rs.len()
        invariant
            out@ == head + md_rows(rs@.take(i as int)),
    {
        proof { assert(rs@.take(i + 1).drop_last() =~= rs@.take(i as int)); }
        let rr = &rs[i];
        push_line3(&mut out, "| ", rr.repo_name.as_str(), " | ");
        push_line3(&mut out, status_text(&rr.outcome), " | ", rr.outcome.text());
        out.append(" |\n");
    }
    proof { assert(rs@.take(rs@.len() as int) =~= rs@); }
    out.append("\n");
    out.append("**Policy summary:** ");
    let counts = PolicyCounts::from_policy(p);
    let line = format_counts_line(&counts);
    out.append(line.as_str());
    out.append("\n");
    proof { assert(out@ =~= md_policy_check(*p)); }
    out
}

pub(crate) proof fn lemma_group_count<'a>(ms: Seq<(&'a str, &'a RepoResult)>, k: OutcomeKind)
    ensures
        count_member_kind(ms, k) == group_count(ms.map_values(|m: (&'a str, &'a RepoResult)| (m.0@, *m.1)), k),
    decreases ms.len(),
{
    let f = |m: (&'a str, &'a RepoResult)| (m.0@, *m.1);
    if ms.len() > 0 {
        lemma_group_count(ms.drop_last(), k);
        assert(ms.map_values(f).drop_last() =~= ms.drop_last().map_values(f));
    }
}

fn group_section<'a>(g: &RepoGroup<'a>) -> (s: String)
    ensures
        s@ == md_group(group_view(*g)),
{
    let ghost ms = group_view(*g).1;
    let counts = RepoCounts::from_results(&g.results);
    proof {
        lemma_group_count(g.results@, OutcomeKind::Pass);
        lemma_group_count(g.results@, OutcomeKind::Fail);
        lemma_group_count(g.results@, OutcomeKind::Skip);
        lemma_group_count(g.results@, OutcomeKind::Error);
    }
    let total = counts.total();
    let mut out = concat3("### ", g.repo_name, " — ");
    push_dec(&mut out, total);
    out.append(" ");
    out.append(if total == 1 { "policy" } else { "policies" });
    out.append(" (");
    let tally = format_repo_counts(&counts);
    out.append(tally.as_str());
    out.append(")\n");
    out.append("\n");
    let ghost head = out@;
    for i in 0..g.results.len()
        invariant
            ms == group_view(*g).1,
            out@ == head + md_members(ms.take(i as int)),
    {
        proof { assert(ms.take(i + 1).drop_last() =~= ms.take(i as int)); }
        let (policy_name, rr) = g.results[i];
        push_line3(&mut out, "- ", status_text(&rr.outcome), " **");
        push_line3(&mut out, policy_name, "** — ", rr.outcome.text());
        out.append("\n");
    }
    proof { assert(ms.take(ms.len() as int) =~= ms); }
    out.append("\n");
    proof { assert(out@ =~= md_group(group_view(*g))); }
    out
}

fn settings_row(a: &SettingsAction, errored: bool) -> (s: String)
    ensures
        s@ == md_settings_row(*a, errored),
{
    let mut out = concat3("| ", a.repo_name.as_str(), " | ");
    let names = join_strings(&a.policy_names, ", ");
    out.append(names.as_str());
    out.append(" | ");
    if errored {
        out.append("error: ");
        match &a.error {
            Some(e) => out.append(e.as_str()),
            None => out.append("unknown"),
        }
    } else {
        match a.action {
            SettingsActionKind::Applied => out.append("settings updated"),
            SettingsActionKind::DryRun => out.append("would update settings"),
            SettingsActionKind::Error => out.append("error"),
        }
    }
    let patch = repo_settings_patch_json(&a.patch);
    push_line3(&mut out, " | `", patch.as_str(), "` |\n");
    proof {
        reveal_strlit("settings updated");
        reveal_strlit("would update settings");
        reveal_strlit("settings");
        reveal_strlit(" updated");
        reveal_strlit("would update ");
        assert("settings updated"@ =~= "settings"@ + " updated"@);
        assert("would update settings"@ =~= "would update "@ + "settings"@);
        assert(out@ =~= md_settings_row(*a, errored));
    }
    out
}

fn settings_rows(out: &mut String, actions: &Vec<SettingsAction>, errored: bool)
    ensures
        final(out)@ == old(out)@ + md_settings_rows(actions@, errored),
{
    let ghost start = out@;
    for i in 0..actions.len()
        invariant
            out@ == start + md_settings_rows(actions@.take(i as int), errored),
    {
        proof { assert(actions@.take(i + 1).drop_last() =~= actions@.take(i as int)); }
        let row = settings_row(&actions[i], errored);
        out.append(row.as_str());
    }
    proof { assert(actions@.take(actions@.len() as int) =~= actions@); }
}

fn protection_row(a: &BranchProtectionAction, errored: bool) -> (s: String)
    ensures
        s@ == md_protection_row(*a, errored),
{
    let mut out = concat3("| ", a.repo_name.as_str(), " | ");
    out.append(a.branch.as_str());
    out.append(" | ");
    let names = join_strings(&a.policy_names, ", ");
    out.append(names.as_str());
    out.append(" | ");
    if errored {
        out.append("error: ");
        match &a.error {
            Some(e) => out.append(e.as_str()),
            None => out.append("unknown"),
        }
    } else {
        match a.action {
            SettingsActionKind::Applied => out.append("protection updated"),
            SettingsActionKind::DryRun => out.append("would update protection"),
            SettingsActionKind::Error => out.append("error"),
        }
    }
    let patch = branch_protection_patch_json(&a.patch);
    push_line3(&mut out, " | `", patch.as_str(), "` |\n");
    proof {
        reveal_strlit("protection updated");
        reveal_strlit("would update protection");
        reveal_strlit("protection");
        reveal_strlit(" updated");
        reveal_strlit("would update ");
        assert("protection updated"@ =~= "protection"@ + " updated"@);
        assert("would update protection"@ =~= "would update "@ + "protection"@);
        assert(out@ =~= md_protection_row(*a, errored));
    }
    out
}

fn protection_rows(out: &mut String, actions: &Vec<BranchProtectionAction>, errored: bool)
    ensures
        final(out)@ == old(out)@ + md_protection_rows(actions@, errored),
{
    let ghost start = out@;
    for i in 0..actions.len()
        invariant
            out@ == start + md_protection_rows(actions@.take(i as int), errored),
    {
        proof { assert(actions@.take(i + 1).drop_last() =~= actions@.take(i as int)); }
        let row = protection_row(&actions[i], errored);
        out.append(row.as_str());
    }
    proof { assert(actions@.take(actions@.len() as int) =~= actions@); }
}

fn apply_row(map: &Vec<PrActionEntry>, policy: &str, rr: &RepoResult) -> (s: String)
    ensures
        s@ == md_apply_row(entry_views(map@), policy@, *rr),
{
    let (label, url) = match lookup_action(map, rr.repo_name.as_str(), policy) {
        Some(found) => found,
        None => ("-".to_owned(), "-".to_owned()),
    };
    let mut out = concat3("| ", rr.repo_name.as_str(), " | ");
    push_line3(&mut out, status_text(&rr.outcome), " | ", label.as_str());
    push_line3(&mut out, " | ", url.as_str(), " |\n");
    proof { assert(out@ =~= md_apply_row(entry_views(map@), policy@, *rr)); }
    out
}

fn settings_section(ar: &ApplyReport) -> (s: String)
    ensures
        s@ == md_settings_section(*ar),
{
    let mut out = String::new();
    if has_settings_actions(ar) {
        out.append("## Repo settings updates\n\n");
        out.append("| Repository | Policies | Action | Patch |\n");
        out.append("|---|---|---|---|\n");
        settings_rows(&mut out, &ar.settings_applied, false);
        settings_rows(&mut out, &ar.settings_errored, true);
        out.append("\n");
    }
    proof { assert(out@ =~= md_settings_section(*ar)); }
    out
}

fn protection_section(ar: &ApplyReport) -> (s: String)
    ensures
        s@ == md_protection_section(*ar),
{
    let mut out = String::new();
    if has_branch_protection_actions(ar) {
        out.append("## Branch protection updates\n\n");
        out.append("| Repository | Branch | Policies | Action | Patch |\n");
        out.append("|---|---|---|---|---|\n");
        protection_rows(&mut out, &ar.branch_protection_applied, false);
        protection_rows(&mut out, &ar.branch_protection_errored, true);
        out.append("\n");
    }
    proof { assert(out@ =~= md_protection_section(*ar)); }
    out
}

/// The closing lines of an apply report: overview, then the three action summaries.
pub open spec fn md_apply_footer(ar: ApplyReport) -> Seq<char> {
    md_overview(ar.report) + "- PRs: "@ + pr_summary(ar) + "\n"@ + "- Settings: "@ + settings_summary(ar) + "\n"@
        + "- Branch protection: "@ + protection_summary(ar)
}

fn apply_footer(ar: &ApplyReport) -> (s: String)
    requires
        ar.report.summary.passing + ar.report.summary.failing <= usize::MAX,
    ensures
        s@ == md_apply_footer(*ar),
{
    let mut out = format_overview(&ar.report);
    out.append("- PRs: ");
    let prs = format_pr_summary(ar);
    out.append(prs.as_str());
    out.append("\n");
    out.append("- Settings: ");
    let settings = format_settings_summary(ar);
    out.append(settings.as_str());
    out.append("\n");
    out.append("- Branch protection: ");
    let protection = format_branch_protection_summary(ar);
    out.append(protection.as_str());
    proof { assert(out@ =~= md_apply_footer(*ar)); }
    out
}

#[verifier::rlimit(40)]
fn apply_policy(map: &Vec<PrActionEntry>, p: &PolicyReport) -> (s: String)
    ensures
        s@ == md_apply_policy(entry_views(map@), *p),
{
    let mut out = policy_head(p);
    let rs = &p.repo_results;
    if rs.len() == 0 {
        out.append("*(no repositories matched)*\n");
        out.append("\n");
        return out;
    }
    let ghost rows = entry_views(map@);
    let ghost head = out@ + "| Repository | Status | Action | PR |\n"@ + "|---|---|---|---|\n"@;
    out.append("| Repository | Status | Action | PR |\n");
    out.append("|---|---|---|---|\n");
    for i in 0..rs.len()
        invariant
            rows == entry_views(map@),
            out@ == head + md_apply_rows(rows, p.policy_name@, rs@.take(i as int)),
    {
        proof { assert(rs@.take(i + 1).drop_last() =~= rs@.take(i as int)); }
        let row = apply_row(map, p.policy_name.as_str(), &rs[i]);
        out.append(row.as_str());
    }
    proof { assert(rs@.take(rs@.len() as int) =~= rs@); }
    out.append("\n");
    out.append("**Policy summary:** ");
    let counts = PolicyCounts::from_policy(p);
    let line = format_counts_line(&counts);
    out.append(line.as_str());
    out.append("\n");
    out.append("\n");
    proof { assert(out@ =~= md_apply_policy(rows, *p)); }
    out
}

impl MarkdownFormatter {
    pub fn new() -> (f: Self) {
        MarkdownFormatter
    }
}

impl Formatter for MarkdownFormatter {
    fn name(&self) -> (s: &str)
        ensures
            s@ == "markdown"@,
    {
        "markdown"
    }

    fn format(&self, report: &Report) -> (r: Result<String, CoreError>)
        ensures
            r matches Ok(s) && s@ == md_report(*report),
    {
        let mut out = String::new();
        out.append("# multipush Report\n\n");
        let ghost head = out@;
        let ps = &report.results;
        for i in 0..ps.len()
            invariant
                ps@ == report.results@,
                out@ == head + md_policies(ps@.take(i as int)),
        {
            proof { assert(ps@.take(i + 1).drop_last() =~= ps@.take(i as int)); }
            let section = format_policy_check(&ps[i]);
            out.append(section.as_str());
            out.append("\n");
        }
        proof { assert(ps@.take(ps@.len() as int) =~= ps@); }
        let ov = format_overview(report);
        out.append(ov.as_str());
        Ok(out)
    }

    fn format_by_repo(&self, report: &Report) -> (r: Result<String, CoreError>)
        ensures
            r matches Ok(s) && s@ == md_by_repo(*report),
    {
        let mut out = String::new();
        out.append("# multipush Report (by repo)\n\n");
        let ghost head = out@;
        let groups = group_by_repo(report);
        let ghost gv = groups_view(groups@);
        for i in 0..groups.len()
            invariant
                gv == groups_view(groups@),
                out@ == head + md_groups(gv.take(i as int)),
        {
            proof { assert(gv.take(i + 1).drop_last() =~= gv.take(i as int)); }
            let section = group_section(&groups[i]);
            out.append(section.as_str());
        }
        proof { assert(gv.take(gv.len() as int) =~= gv); }
        let ov = format_overview(report);
        out.append(ov.as_str());
        Ok(out)
    }

    fn format_apply(&self, apply_report: &ApplyReport) -> (r: Result<String, CoreError>)
        ensures
            r matches Ok(s) && s@ == md_apply(*apply_report),
    {
        let report = &apply_report.report;
        let map = build_pr_action_map(apply_report);
        let mut out = String::new();
        out.append("# multipush Apply Report\n\n");
        let ghost head = out@;
        let ghost rows = entry_views(map@);
        let ps = &report.results;
        for i in 0..ps.len()
            invariant
                ps@ == report.results@,
                rows == entry_views(map@),
                out@ == head + md_apply_policies(rows, ps@.take(i as int)),
        {
            proof { assert(ps@.take(i + 1).drop_last() =~= ps@.take(i as int)); }
            let section = apply_policy(&map, &ps[i]);
            out.append(section.as_str());
        }
        proof { assert(ps@.take(ps@.len() as int) =~= ps@); }
        let settings = settings_section(apply_report);
        out.append(settings.as_str());
        let protection = protection_section(apply_report);
        out.append(protection.as_str());
        let autolinks = autolink_section(apply_report);
        out.append(autolinks.as_str());
        let footer = apply_footer(apply_report);
        out.append(footer.as_str());
        proof { assert(out@ =~= md_apply(*apply_report)); }
        Ok(out)
    }
}

} // verus!
