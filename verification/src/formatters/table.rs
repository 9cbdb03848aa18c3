//! Terminal rendering of check and apply reports: box-drawn tables, optionally coloured.

use vstd::prelude::*;
use vstd::string::*;

use owo_colors::OwoColorize;

use crate::engine::executor::{ApplyReport, AutolinkAction, BranchProtectionAction, SettingsAction, SettingsActionKind};
use crate::engine::plan::{
    all_dry_autolinks, all_dry_protections, all_dry_settings, autolink_entries, plan_apply_actions, plan_autolinks,
    planned_autolinks, planned_protections, planned_settings, protection_entries, settings_entries, AutolinkEntry,
    ProtectionEntry, SettingsEntry,
};
use crate::error::CoreError;
use crate::formatter::{
    build_pr_action_map, check_action, check_pr_summary, count_would_pr, derive_check_action, derive_pr_action,
    entry_views, format_branch_protection_summary, format_branch_protection_summary_for_check, format_pr_summary,
    format_pr_summary_for_check, format_settings_summary, format_settings_summary_for_check, group_by_repo,
    group_policies, group_view, groups_view, has_branch_protection_actions, has_settings_actions, planned_line,
    pr_action_cells, pr_summary, protection_summary, report_fits, settings_summary, action_map_rows, Formatter,
    OutcomeKind, PolicyCounts, PolicyReport, PrActionEntry, RepoCounts, RepoGroup, RepoOutcome, RepoResult, Report,
};
use crate::formatters::markdown::{autolink_text, group_count, update_label};
use crate::formatters::{
    format_counts_line, format_rate, format_repo_counts, policies_word, policy_counts_line, rate_detail,
    repo_counts_text, status_label, status_text,
};
use crate::json::{branch_protection_patch_json, protection_patch_json, repo_patch_json, repo_settings_patch_json};
use crate::text::{concat3, dec, join, join_strings, push_char, push_dec};

verus! {

/// Renders reports as box-drawn tables; `color` adds ANSI colours to status cells.
pub struct TableFormatter {
    color: bool,
}

/// The text `tabled` renders for `rows` (the first row is the header) in its `sharp` style.
pub uninterp spec fn sharp_table(rows: Seq<Seq<Seq<char>>>) -> Seq<char>;

/// Renders the rows with `tabled`'s `Builder` and `Style::sharp()`. Trusted: the layout is the
/// crate's; it depends on the cells alone.
#[verifier::external_body]
fn render_sharp_table(rows: &Vec<Vec<String>>) -> (s: String)
    ensures
        s@ == sharp_table(rows.deep_view()),
{
    let mut table = tabled::builder::Builder::from(rows.clone()).build();
    table.with(tabled::settings::Style::sharp());
    table.to_string()
}

/// `owo_colors`' `green()`: the text between the green foreground code and the default one.
#[verifier::external_body]
fn paint_green(s: &str) -> (r: String)
    ensures
        r@ == "\x1b[32m"@ + s@ + "\x1b[39m"@,
{
    s.green().to_string()
}

/// `owo_colors`' `red()`: the text between the red foreground code and the default one.
#[verifier::external_body]
fn paint_red(s: &str) -> (r: String)
    ensures
        r@ == "\x1b[31m"@ + s@ + "\x1b[39m"@,
{
    s.red().to_string()
}

/// `owo_colors`' `yellow()`: the text between the yellow foreground code and the default one.
#[verifier::external_body]
fn paint_yellow(s: &str) -> (r: String)
    ensures
        r@ == "\x1b[33m"@ + s@ + "\x1b[39m"@,
{
    s.yellow().to_string()
}

/// `owo_colors`' `bold().red()`: red around bold around the text.
#[verifier::external_body]
fn paint_bold_red(s: &str) -> (r: String)
    ensures
        r@ == "\x1b[31m"@ + "\x1b[1m"@ + s@ + "\x1b[0m"@ + "\x1b[39m"@,
{
    s.bold().red().to_string()
}

/// The text coloured for an outcome kind when `color` is on.
pub open spec fn paint(color: bool, k: OutcomeKind, text: Seq<char>) -> Seq<char> {
    if !color {
        text
    } else {
        match k {
            OutcomeKind::Pass => "\x1b[32m"@ + text + "\x1b[39m"@,
            OutcomeKind::Fail => "\x1b[31m"@ + text + "\x1b[39m"@,
            OutcomeKind::Skip => "\x1b[33m"@ + text + "\x1b[39m"@,
            OutcomeKind::Error => "\x1b[31m"@ + "\x1b[1m"@ + text + "\x1b[0m"@ + "\x1b[39m"@,
        }
    }
}

/// The one-character glyph of an outcome kind.
pub open spec fn glyph(k: OutcomeKind) -> Seq<char> {
    match k {
        OutcomeKind::Pass => "✓"@,
        OutcomeKind::Fail => "✗"@,
        OutcomeKind::Skip => "•"@,
        OutcomeKind::Error => "!"@,
    }
}

/// One check-table row: repository, status, detail, planned action.
pub open spec fn check_row(color: bool, rr: RepoResult) -> Seq<Seq<char>> {
    seq![
        rr.repo_name@,
        paint(color, rr.outcome.spec_kind(), status_label(rr.outcome.spec_kind())),
        rr.outcome.spec_text(),
        check_action(rr.outcome),
    ]
}

/// The check-table rows of a policy's results.
pub open spec fn check_rows(color: bool, rs: Seq<RepoResult>) -> Seq<Seq<Seq<char>>> {
    rs.map_values(|rr: RepoResult| check_row(color, rr))
}

/// One apply-table row: repository, status, action, PR.
pub open spec fn apply_row(color: bool, rows: Seq<(Seq<char>, Seq<char>, Seq<char>, Seq<char>)>, policy: Seq<char>, rr: RepoResult) -> Seq<Seq<char>> {
    let c = pr_action_cells(rows, rr.repo_name@, policy, rr.outcome);
    seq![rr.repo_name@, paint(color, rr.outcome.spec_kind(), status_label(rr.outcome.spec_kind())), c.0, c.1]
}

/// The apply-table rows of a policy's results.
pub open spec fn apply_rows(color: bool, rows: Seq<(Seq<char>, Seq<char>, Seq<char>, Seq<char>)>, policy: Seq<char>, rs: Seq<RepoResult>) -> Seq<Seq<Seq<char>>> {
    rs.map_values(|rr: RepoResult| apply_row(color, rows, policy, rr))
}

/// The block of one policy: heading, then its table and counts line (or a placeholder).
pub open spec fn policy_block(p: PolicyReport, table: Seq<Seq<Seq<char>>>) -> Seq<char> {
    "Policy: "@ + p.policy_name@ + (match p.description {
        Some(d) => "  "@ + d@,
        None => Seq::empty(),
    }) + "\n"@ + if p.repo_results@.len() == 0 {
        "  (no repositories matched)\n"@
    } else {
        sharp_table(table) + "\n"@ + "Policy summary: "@ + policy_counts_line(p) + "\n"@
    }
}

/// The header of the check table.
pub open spec fn check_header() -> Seq<Seq<char>> {
    seq!["Repository"@, "Status"@, "Detail"@, "Action"@]
}

/// The header of the apply table.
pub open spec fn apply_header() -> Seq<Seq<char>> {
    seq!["Repository"@, "Status"@, "Action"@, "PR"@]
}

/// The check-mode blocks of all policies, separated by blank lines.
pub open spec fn check_blocks(color: bool, ps: Seq<PolicyReport>) -> Seq<char>
    decreases ps.len(),
{
    if ps.len() == 0 {
        Seq::empty()
    } else {
        let p = ps.last();
        check_blocks(color, ps.drop_last()) + (if ps.len() > 1 { "\n"@ } else { Seq::empty() })
            + policy_block(p, seq![check_header()] + check_rows(color, p.repo_results@))
    }
}

/// The apply-mode blocks of all policies, separated by blank lines.
pub open spec fn apply_blocks(color: bool, rows: Seq<(Seq<char>, Seq<char>, Seq<char>, Seq<char>)>, ps: Seq<PolicyReport>) -> Seq<char>
    decreases ps.len(),
{
    if ps.len() == 0 {
        Seq::empty()
    } else {
        let p = ps.last();
        apply_blocks(color, rows, ps.drop_last()) + (if ps.len() > 1 { "\n"@ } else { Seq::empty() })
            + policy_block(p, seq![apply_header()] + apply_rows(color, rows, p.policy_name@, p.repo_results@))
    }
}

/// The count lines of the overview block.
pub open spec fn tb_overview_counts(r: Report) -> Seq<char> {
    let s = r.summary;
    "Overview\n"@ + "────────\n"@ + "Policies:     "@ + dec(r.results@.len()) + "\n"@ + "Repositories: "@
        + dec(s.total_repos as nat) + "\n"@ + "Pass:         "@ + dec(s.passing as nat) + "\n"@ + "Fail:         "@
        + dec(s.failing as nat) + "\n"@ + "Skip:         "@ + dec(s.skipped as nat) + "\n"@ + "Error:        "@
        + dec(s.errors as nat) + "\n"@
}

/// The success-rate line of the overview block (without a trailing newline).
pub open spec fn tb_rate_line(r: Report) -> Seq<char> {
    let s = r.summary;
    let ev = s.passing + s.failing;
    if ev > 0 {
        "Success rate: "@ + rate_detail(s.passing as nat, ev as nat, "  "@)
    } else {
        "Success rate: n/a  (no repositories evaluated)"@
    }
}

/// The overview block (without a trailing newline).
pub open spec fn tb_overview(r: Report) -> Seq<char> {
    tb_overview_counts(r) + tb_rate_line(r)
}

/// The header of the settings-updates table.
pub open spec fn settings_header() -> Seq<Seq<char>> {
    seq!["Repository"@, "Policies"@, "Action"@, "Patch"@]
}

/// The header of the protection-updates table.
pub open spec fn protection_header() -> Seq<Seq<char>> {
    seq!["Repository"@, "Branch"@, "Policies"@, "Action"@, "Patch"@]
}

/// The Action cell of an errored update.
pub open spec fn error_cell(e: Option<String>) -> Seq<char> {
    match e {
        Some(m) => "error: "@ + m@,
        None => "error"@,
    }
}

/// A settings-updates row of an action.
pub open spec fn settings_row(a: SettingsAction, errored: bool) -> Seq<Seq<char>> {
    seq![
        a.repo_name@,
        join(a.policy_names.deep_view(), ", "@),
        if errored { error_cell(a.error) } else { update_label(a.action, "settings"@) },
        repo_patch_json(a.patch),
    ]
}

/// A protection-updates row of an action.
pub open spec fn protection_row(a: BranchProtectionAction, errored: bool) -> Seq<Seq<char>> {
    seq![
        a.repo_name@,
        a.branch@,
        join(a.policy_names.deep_view(), ", "@),
        if errored { error_cell(a.error) } else { update_label(a.action, "protection"@) },
        protection_patch_json(a.patch@),
    ]
}

/// The settings-updates rows of a list of actions.
pub open spec fn settings_rows(s: Seq<SettingsAction>, errored: bool) -> Seq<Seq<Seq<char>>> {
    s.map_values(|a: SettingsAction| settings_row(a, errored))
}

/// The protection-updates rows of a list of actions.
pub open spec fn protection_rows(s: Seq<BranchProtectionAction>, errored: bool) -> Seq<Seq<Seq<char>>> {
    s.map_values(|a: BranchProtectionAction| protection_row(a, errored))
}

/// The settings-updates rows of planned (not yet performed) updates.
pub open spec fn planned_settings_rows(es: Seq<SettingsEntry>) -> Seq<Seq<Seq<char>>> {
    es.map_values(|e: SettingsEntry| seq![e.repo, join(e.policies, ", "@), "would update settings"@, repo_patch_json(e.patch)])
}

/// The protection-updates rows of planned (not yet performed) updates.
pub open spec fn planned_protection_rows(es: Seq<ProtectionEntry>) -> Seq<Seq<Seq<char>>> {
    es.map_values(|e: ProtectionEntry| seq![e.repo, e.branch, join(e.policies, ", "@), "would update protection"@, protection_patch_json(e.patch)])
}

/// The planned settings-updates section of a check report, when anything is planned.
pub open spec fn planned_settings_section(es: Seq<SettingsEntry>) -> Seq<char> {
    if es.len() > 0 {
        "\n"@ + "Repo settings updates:\n"@ + sharp_table(seq![settings_header()] + planned_settings_rows(es)) + "\n"@
    } else {
        Seq::empty()
    }
}

/// The planned protection-updates section of a check report, when anything is planned.
pub open spec fn planned_protection_section(es: Seq<ProtectionEntry>) -> Seq<char> {
    if es.len() > 0 {
        "\n"@ + "Branch protection updates:\n"@ + sharp_table(seq![protection_header()] + planned_protection_rows(es))
            + "\n"@
    } else {
        Seq::empty()
    }
}

/// The three summary lines that close a report.
pub open spec fn footer_lines(prs: Seq<char>, settings: Seq<char>, protection: Seq<char>) -> Seq<char> {
    "\nPRs:               "@ + prs + "\nSettings:          "@ + settings + "\nBranch protection: "@ + protection
}

/// A blank line after the policy blocks, when there are any.
pub open spec fn blocks_gap(r: Report) -> Seq<char> {
    if r.results@.len() > 0 { "\n"@ } else { Seq::empty() }
}

/// The autolink-updates rows of planned (not yet performed) updates.
pub open spec fn planned_autolink_rows(es: Seq<AutolinkEntry>) -> Seq<Seq<Seq<char>>> {
    es.map_values(|e: AutolinkEntry| seq![e.repo, e.policy, "would update autolink"@, e.key_prefix + " -> "@ + e.url_template])
}

/// The planned autolink-updates section of a check report, when anything is planned.
pub open spec fn planned_autolink_section(es: Seq<AutolinkEntry>) -> Seq<char> {
    if es.len() > 0 {
        "\n"@ + "Autolink updates:\n"@ + sharp_table(seq![autolink_header()] + planned_autolink_rows(es)) + "\n"@
    } else {
        Seq::empty()
    }
}

/// The whole check-mode table report.
pub open spec fn tb_report(color: bool, r: Report) -> Seq<char> {
    check_blocks(color, r.results@) + planned_settings_section(planned_settings(r)) + planned_protection_section(
        planned_protections(r),
    ) + planned_autolink_section(planned_autolinks(r.results@)) + blocks_gap(r) + tb_overview(r) + footer_lines(
        check_pr_summary(r),
        planned_line(planned_settings(r).len()),
        planned_line(planned_protections(r).len()),
    )
}

/// The settings-updates section of an apply report, when it has any action.
pub open spec fn applied_settings_section(ar: ApplyReport) -> Seq<char> {
    if ar.settings_applied@.len() > 0 || ar.settings_errored@.len() > 0 {
        "\n"@ + "Repo settings updates:\n"@ + sharp_table(
            seq![settings_header()] + settings_rows(ar.settings_applied@, false) + settings_rows(ar.settings_errored@, true),
        ) + "\n"@
    } else {
        Seq::empty()
    }
}

/// The protection-updates section of an apply report, when it has any action.
pub open spec fn applied_protection_section(ar: ApplyReport) -> Seq<char> {
    if ar.branch_protection_applied@.len() > 0 || ar.branch_protection_errored@.len() > 0 {
        "\n"@ + "Branch protection updates:\n"@ + sharp_table(
            seq![protection_header()] + protection_rows(ar.branch_protection_applied@, false) + protection_rows(
                ar.branch_protection_errored@,
                true,
            ),
        ) + "\n"@
    } else {
        Seq::empty()
    }
}

/// The header of the autolink-updates table.
pub open spec fn autolink_header() -> Seq<Seq<char>> {
    seq!["Repository"@, "Policy"@, "Action"@, "Autolink"@]
}

/// An autolink-updates row of an action.
pub open spec fn autolink_row(a: AutolinkAction, errored: bool) -> Seq<Seq<char>> {
    seq![
        a.repo_name@,
        a.policy_name@,
        if errored { error_cell(a.error) } else { update_label(a.action, "autolink"@) },
        autolink_text(a),
    ]
}

/// The autolink-updates rows of a list of actions.
pub open spec fn autolink_rows(s: Seq<AutolinkAction>, errored: bool) -> Seq<Seq<Seq<char>>> {
    s.map_values(|a: AutolinkAction| autolink_row(a, errored))
}

/// The autolink-updates section of an apply report, when it has any action.
pub open spec fn applied_autolink_section(ar: ApplyReport) -> Seq<char> {
    if ar.autolinks_applied@.len() > 0 || ar.autolinks_errored@.len() > 0 {
        "\n"@ + "Autolink updates:\n"@ + sharp_table(
            seq![autolink_header()] + autolink_rows(ar.autolinks_applied@, false) + autolink_rows(ar.autolinks_errored@, true),
        ) + "\n"@
    } else {
        Seq::empty()
    }
}

/// The whole apply-mode table report.
pub open spec fn tb_apply(color: bool, ar: ApplyReport) -> Seq<char> {
    apply_blocks(color, action_map_rows(ar), ar.report.results@) + applied_settings_section(ar)
        + applied_protection_section(ar) + applied_autolink_section(ar) + blocks_gap(ar.report) + tb_overview(ar.report) + footer_lines(
        pr_summary(ar),
        settings_summary(ar),
        protection_summary(ar),
    )
}

/// The widest policy name of a group, in characters.
pub open spec fn name_width(ms: Seq<(Seq<char>, RepoResult)>) -> nat
    decreases ms.len(),
{
    if ms.len() == 0 {
        0
    } else {
        let w = name_width(ms.drop_last());
        if ms.last().0.len() > w { ms.last().0.len() } else { w }
    }
}

/// `s` padded on the right with spaces to `w` characters.
pub open spec fn pad_right(s: Seq<char>, w: nat) -> Seq<char> {
    if s.len() >= w { s } else { s + Seq::new((w - s.len()) as nat, |i: int| ' ') }
}

/// One member line of a repository group.
pub open spec fn member_line(color: bool, w: nat, m: (Seq<char>, RepoResult)) -> Seq<char> {
    "  "@ + paint(color, m.1.outcome.spec_kind(), glyph(m.1.outcome.spec_kind())) + " "@ + pad_right(m.0, w) + "  "@
        + m.1.outcome.spec_text() + "\n"@
}

/// The member lines of a repository group.
pub open spec fn member_lines(color: bool, w: nat, ms: Seq<(Seq<char>, RepoResult)>) -> Seq<char>
    decreases ms.len(),
{
    if ms.len() == 0 { Seq::empty() } else { member_lines(color, w, ms.drop_last()) + member_line(color, w, ms.last()) }
}

/// The section of one repository in the by-repo view.
pub open spec fn group_block(color: bool, g: (Seq<char>, Seq<(Seq<char>, RepoResult)>)) -> Seq<char> {
    let ms = g.1;
    g.0 + "  — "@ + dec(ms.len()) + " "@ + policies_word(ms.len()) + " ("@ + repo_counts_text(
        group_count(ms, OutcomeKind::Pass),
        group_count(ms, OutcomeKind::Fail),
        group_count(ms, OutcomeKind::Skip),
        group_count(ms, OutcomeKind::Error),
    ) + ")\n"@ + member_lines(color, name_width(ms), ms)
}

/// The sections of all repository groups, separated by blank lines.
pub open spec fn group_blocks(color: bool, gs: Seq<(Seq<char>, Seq<(Seq<char>, RepoResult)>)>) -> Seq<char>
    decreases gs.len(),
{
    if gs.len() == 0 {
        Seq::empty()
    } else {
        group_blocks(color, gs.drop_last()) + (if gs.len() > 1 { "\n"@ } else { Seq::empty() }) + group_block(color, gs.last())
    }
}

/// The whole by-repo table report.
pub open spec fn tb_by_repo(color: bool, r: Report) -> Seq<char> {
    let gs = group_policies(r.results@);
    group_blocks(color, gs) + (if gs.len() > 0 { "\n"@ } else { Seq::empty() }) + tb_overview(r)
}

fn push_num_line(out: &mut String, label: &str, n: usize)
    ensures
        final(out)@ == old(out)@ + label@ + dec(n as nat) + "\n"@,
{
    out.append(label);
    push_dec(out, n);
    out.append("\n");
}

fn overview_counts(r: &Report) -> (s: String)
    ensures
        s@ == tb_overview_counts(*r),
{
    let sm = &r.summary;
    let mut out = String::new();
    out.append("Overview\n");
    out.append("────────\n");
    push_num_line(&mut out, "Policies:     ", r.results.len());
    push_num_line(&mut out, "Repositories: ", sm.total_repos);
    push_num_line(&mut out, "Pass:         ", sm.passing);
    push_num_line(&mut out, "Fail:         ", sm.failing);
    push_num_line(&mut out, "Skip:         ", sm.skipped);
    push_num_line(&mut out, "Error:        ", sm.errors);
    proof { assert(out@ =~= tb_overview_counts(*r)); }
    out
}

fn rate_line(r: &Report) -> (s: String)
    requires
        r.summary.passing + r.summary.failing <= usize::MAX,
    ensures
        s@ == tb_rate_line(*r),
{
    let sm = &r.summary;
    let mut out = String::new();
    let ev = sm.evaluated();
    if ev > 0 {
        out.append("Success rate: ");
        let rate = format_rate(sm.passing, ev);
        out.append(rate.as_str());
        out.append("%");
        out.append("  ");
        out.append("(");
        push_dec(&mut out, sm.passing);
        out.append(" pass / ");
        push_dec(&mut out, ev);
        out.append(" evaluated)");
    } else {
        out.append("Success rate: n/a  (no repositories evaluated)");
    }
    proof { assert(out@ =~= tb_rate_line(*r)); }
    out
}

fn format_overview(r: &Report) -> (s: String)
    requires
        r.summary.passing + r.summary.failing <= usize::MAX,
    ensures
        s@ == tb_overview(*r),
{
    let mut out = overview_counts(r);
    let line = rate_line(r);
    out.append(line.as_str());
    out
}

fn footer(prs: &str, settings: &str, protection: &str) -> (s: String)
    ensures
        s@ == footer_lines(prs@, settings@, protection@),
{
    let mut out = String::new();
    out.append("\nPRs:               ");
    out.append(prs);
    out.append("\nSettings:          ");
    out.append(settings);
    out.append("\nBranch protection: ");
    out.append(protection);
    proof { assert(out@ =~= footer_lines(prs@, settings@, protection@)); }
    out
}

fn push_row(rows: &mut Vec<Vec<String>>, row: Vec<String>)
    ensures
        final(rows).deep_view() == old(rows).deep_view().push(row.deep_view()),
{
    let ghost before = rows.deep_view();
    let ghost rv = row.deep_view();
    rows.push(row);
    proof { assert(rows.deep_view() =~= before.push(rv)); }
}

fn cells4(a: String, b: String, c: String, d: String) -> (v: Vec<String>)
    ensures
        v.deep_view() == seq![a@, b@, c@, d@],
{
    let mut v: Vec<String> = Vec::new();
    let ghost (av, bv, cv, dv) = (a@, b@, c@, d@);
    v.push(a);
    v.push(b);
    v.push(c);
    v.push(d);
    proof { assert(v.deep_view() =~= seq![av, bv, cv, dv]); }
    v
}

fn cells5(a: String, b: String, c: String, d: String, e: String) -> (v: Vec<String>)
    ensures
        v.deep_view() == seq![a@, b@, c@, d@, e@],
{
    let mut v: Vec<String> = Vec::new();
    let ghost (av, bv, cv, dv, ev) = (a@, b@, c@, d@, e@);
    v.push(a);
    v.push(b);
    v.push(c);
    v.push(d);
    v.push(e);
    proof { assert(v.deep_view() =~= seq![av, bv, cv, dv, ev]); }
    v
}

fn settings_cells(a: &SettingsAction, errored: bool) -> (v: Vec<String>)
    ensures
        v.deep_view() == settings_row(*a, errored),
{
    let action = if errored {
        match &a.error {
            Some(e) => concat3("error: ", e.as_str(), ""),
            None => "error".to_owned(),
        }
    } else {
        match a.action {
            SettingsActionKind::Applied => "settings updated".to_owned(),
            SettingsActionKind::DryRun => "would update settings".to_owned(),
            SettingsActionKind::Error => "error".to_owned(),
        }
    };
    proof {
        reveal_strlit("");
        reveal_strlit("settings updated");
        reveal_strlit("would update settings");
        reveal_strlit("settings");
        reveal_strlit(" updated");
        reveal_strlit("would update ");
        assert("settings updated"@ =~= "settings"@ + " updated"@);
        assert("would update settings"@ =~= "would update "@ + "settings"@);
    }
    cells4(a.repo_name.clone(), join_strings(&a.policy_names, ", "), action, repo_settings_patch_json(&a.patch))
}

fn protection_cells(a: &BranchProtectionAction, errored: bool) -> (v: Vec<String>)
    ensures
        v.deep_view() == protection_row(*a, errored),
{
    let action = if errored {
        match &a.error {
            Some(e) => concat3("error: ", e.as_str(), ""),
            None => "error".to_owned(),
        }
    } else {
        match a.action {
            SettingsActionKind::Applied => "protection updated".to_owned(),
            SettingsActionKind::DryRun => "would update protection".to_owned(),
            SettingsActionKind::Error => "error".to_owned(),
        }
    };
    proof {
        reveal_strlit("");
        reveal_strlit("protection updated");
        reveal_strlit("would update protection");
        reveal_strlit("protection");
        reveal_strlit(" updated");
        reveal_strlit("would update ");
        assert("protection updated"@ =~= "protection"@ + " updated"@);
        assert("would update protection"@ =~= "would update "@ + "protection"@);
    }
    cells5(
        a.repo_name.clone(),
        a.branch.clone(),
        join_strings(&a.policy_names, ", "),
        action,
        branch_protection_patch_json(&a.patch),
    )
}

fn push_settings_rows(rows: &mut Vec<Vec<String>>, actions: &Vec<SettingsAction>, errored: bool)
    ensures
        final(rows).deep_view() == old(rows).deep_view() + settings_rows(actions@, errored),
{
    let ghost start = rows.deep_view();
    for i in 0..actions.len()
        invariant
            rows.deep_view() == start + settings_rows(actions@.take(i as int), errored),
    {
        let cells = settings_cells(&actions[i], errored);
        push_row(rows, cells);
        proof {
            assert(settings_rows(actions@.take(i + 1), errored) =~= settings_rows(actions@.take(i as int), errored).push(settings_row(actions@[i as int], errored)));
        }
    }
    proof { assert(actions@.take(actions@.len() as int) =~= actions@); }
}

fn push_protection_rows(rows: &mut Vec<Vec<String>>, actions: &Vec<BranchProtectionAction>, errored: bool)
    ensures
        final(rows).deep_view() == old(rows).deep_view() + protection_rows(actions@, errored),
{
    let ghost start = rows.deep_view();
    for i in 0..actions.len()
        invariant
            rows.deep_view() == start + protection_rows(actions@.take(i as int), errored),
    {
        let cells = protection_cells(&actions[i], errored);
        push_row(rows, cells);
        proof {
            assert(protection_rows(actions@.take(i + 1), errored) =~= protection_rows(actions@.take(
                i as int,
            ), errored).push(protection_row(actions@[i as int], errored)));
        }
    }
    proof { assert(actions@.take(actions@.len() as int) =~= actions@); }
}

fn header4(a: &str, b: &str, c: &str, d: &str) -> (v: Vec<String>)
    ensures
        v.deep_view() == seq![a@, b@, c@, d@],
{
    cells4(a.to_owned(), b.to_owned(), c.to_owned(), d.to_owned())
}

fn render_settings_table(applied: &Vec<SettingsAction>, errored: &Vec<SettingsAction>) -> (s: String)
    ensures
        s@ == sharp_table(
            seq![settings_header()] + settings_rows(applied@, false)
                + settings_rows(errored@, true),
        ),
{
    let mut rows: Vec<Vec<String>> = Vec::new();
    proof { assert(rows.deep_view() =~= Seq::<Seq<Seq<char>>>::empty()); }
    push_row(&mut rows, header4("Repository", "Policies", "Action", "Patch"));
    push_settings_rows(&mut rows, applied, false);
    push_settings_rows(&mut rows, errored, true);
    proof {
        assert(rows.deep_view() =~= seq![settings_header()] + settings_rows(applied@, false)
            + settings_rows(errored@, true));
    }
    render_sharp_table(&rows)
}

fn render_protection_table(applied: &Vec<BranchProtectionAction>, errored: &Vec<BranchProtectionAction>) -> (s: String)
    ensures
        s@ == sharp_table(
            seq![protection_header()] + protection_rows(applied@, false)
                + protection_rows(errored@, true),
        ),
{
    let mut rows: Vec<Vec<String>> = Vec::new();
    proof { assert(rows.deep_view() =~= Seq::<Seq<Seq<char>>>::empty()); }
    push_row(&mut rows, cells5("Repository".to_owned(), "Branch".to_owned(), "Policies".to_owned(), "Action".to_owned(), "Patch".to_owned()));
    push_protection_rows(&mut rows, applied, false);
    push_protection_rows(&mut rows, errored, true);
    proof {
        assert(rows.deep_view() =~= seq![protection_header()] + protection_rows(applied@, false) + protection_rows(errored@, true));
    }
    render_sharp_table(&rows)
}

proof fn lemma_planned_settings_rows(s: Seq<SettingsAction>)
    requires
        all_dry_settings(s),
    ensures
        settings_rows(s, false) == planned_settings_rows(settings_entries(s)),
{
    assert forall|i: int| 0 <= i < s.len() implies #[trigger] settings_rows(s, false)[i]
        == planned_settings_rows(settings_entries(s))[i] by {
        reveal_strlit("settings");
        reveal_strlit("would update ");
        reveal_strlit("would update settings");
        assert("would update settings"@ =~= "would update "@ + "settings"@);
        assert(s[i].action == SettingsActionKind::DryRun);
    }
    assert(settings_rows(s, false) =~= planned_settings_rows(settings_entries(s)));
}

proof fn lemma_planned_protection_rows(s: Seq<BranchProtectionAction>)
    requires
        all_dry_protections(s),
    ensures
        protection_rows(s, false) == planned_protection_rows(protection_entries(s)),
{
    assert forall|i: int| 0 <= i < s.len() implies #[trigger] protection_rows(s, false)[i]
        == planned_protection_rows(protection_entries(s))[i] by {
        reveal_strlit("protection");
        reveal_strlit("would update ");
        reveal_strlit("would update protection");
        assert("would update protection"@ =~= "would update "@ + "protection"@);
        assert(s[i].action == SettingsActionKind::DryRun);
    }
    assert(protection_rows(s, false) =~= planned_protection_rows(protection_entries(s)));
}

impl TableFormatter {
    /// A table formatter with colours switched on or off.
    pub fn with_color(color: bool) -> (f: Self)
        ensures
            f.spec_color() == color,
    {
        TableFormatter { color }
    }

    /// Whether status cells are coloured.
    pub closed spec fn spec_color(&self) -> bool {
        self.color
    }

    fn format_status(&self, k: OutcomeKind, text: &str) -> (s: String)
        ensures
            s@ == paint(self.spec_color(), k, text@),
    {
        if !self.color {
            return text.to_owned();
        }
        match k {
            OutcomeKind::Pass => paint_green(text),
            OutcomeKind::Fail => paint_red(text),
            OutcomeKind::Skip => paint_yellow(text),
            OutcomeKind::Error => paint_bold_red(text),
        }
    }

    fn format_glyph(&self, k: OutcomeKind) -> (s: String)
        ensures
            s@ == paint(self.spec_color(), k, glyph(k)),
    {
        let g = match k {
            OutcomeKind::Pass => "✓",
            OutcomeKind::Fail => "✗",
            OutcomeKind::Skip => "•",
            OutcomeKind::Error => "!",
        };
        self.format_status(k, g)
    }

    fn render_policy_block(&self, p: &PolicyReport, rows: &Vec<Vec<String>>) -> (s: String)
        ensures
            s@ == policy_block(*p, rows.deep_view()),
    {
        let mut out = concat3("Policy: ", p.policy_name.as_str(), "");
        if let Some(d) = &p.description {
            out.append("  ");
            out.append(d.as_str());
        }
        out.append("\n");
        if p.repo_results.len() == 0 {
            out.append("  (no repositories matched)\n");
        } else {
            let table = render_sharp_table(rows);
            out.append(table.as_str());
            out.append("\n");
            out.append("Policy summary: ");
            let counts = PolicyCounts::from_policy(p);
            let line = format_counts_line(&counts);
            out.append(line.as_str());
            out.append("\n");
        }
        proof {
            reveal_strlit("");
            assert(out@ =~= policy_block(*p, rows.deep_view()));
        }
        out
    }

    fn check_table_rows(&self, p: &PolicyReport) -> (rows: Vec<Vec<String>>)
        ensures
            rows.deep_view() == seq![check_header()] + check_rows(self.spec_color(), p.repo_results@),
    {
        let mut rows: Vec<Vec<String>> = Vec::new();
        proof { assert(rows.deep_view() =~= Seq::<Seq<Seq<char>>>::empty()); }
        push_row(&mut rows, header4("Repository", "Status", "Detail", "Action"));
        let rs = &p.repo_results;
        for i in 0..rs.len()
            invariant
                rows.deep_view() == seq![check_header()] + check_rows(self.spec_color(), rs@.take(i as int)),
        {
            let rr = &rs[i];
            let status = self.format_status(rr.outcome.kind(), status_text(&rr.outcome));
            let cells = cells4(rr.repo_name.clone(), status, rr.outcome.text().to_owned(), derive_check_action(&rr.outcome));
            push_row(&mut rows, cells);
            proof {
                assert(check_rows(self.spec_color(), rs@.take(i + 1)) =~= check_rows(self.spec_color(), rs@.take(i as int)).push(
                    check_row(self.spec_color(), rs@[i as int]),
                ));
            }
        }
        proof { assert(rs@.take(rs@.len() as int) =~= rs@); }
        rows
    }

    fn apply_table_rows(&self, map: &Vec<PrActionEntry>, p: &PolicyReport) -> (rows: Vec<Vec<String>>)
        ensures
            rows.deep_view() == seq![apply_header()] + apply_rows(self.spec_color(), entry_views(map@), p.policy_name@, p.repo_results@),
    {
        let mut rows: Vec<Vec<String>> = Vec::new();
        proof { assert(rows.deep_view() =~= Seq::<Seq<Seq<char>>>::empty()); }
        push_row(&mut rows, header4("Repository", "Status", "Action", "PR"));
        let rs = &p.repo_results;
        let ghost ev = entry_views(map@);
        for i in 0..rs.len()
            invariant
                ev == entry_views(map@),
                rows.deep_view() == seq![apply_header()] + apply_rows(self.spec_color(), ev, p.policy_name@, rs@.take(i as int)),
        {
            let rr = &rs[i];
            let status = self.format_status(rr.outcome.kind(), status_text(&rr.outcome));
            let (label, url) = derive_pr_action(map, rr.repo_name.as_str(), p.policy_name.as_str(), &rr.outcome);
            let cells = cells4(rr.repo_name.clone(), status, label, url);
            push_row(&mut rows, cells);
            proof {
                assert(apply_rows(self.spec_color(), ev, p.policy_name@, rs@.take(i + 1)) =~= apply_rows(
                    self.spec_color(),
                    ev,
                    p.policy_name@,
                    rs@.take(i as int),
                ).push(apply_row(self.spec_color(), ev, p.policy_name@, rs@[i as int])));
            }
        }
        proof { assert(rs@.take(rs@.len() as int) =~= rs@); }
        rows
    }

    fn member_text(&self, policy_name: &str, rr: &RepoResult, width: usize) -> (s: String)
        ensures
            s@ == member_line(self.spec_color(), width as nat, (policy_name@, *rr)),
    {
        let mut out = String::new();
        out.append("  ");
        let glyph = self.format_glyph(rr.outcome.kind());
        out.append(glyph.as_str());
        out.append(" ");
        let padded = pad_exec(policy_name, width);
        out.append(padded.as_str());
        out.append("  ");
        out.append(rr.outcome.text());
        out.append("\n");
        proof { assert(out@ =~= member_line(self.spec_color(), width as nat, (policy_name@, *rr))); }
        out
    }

    fn group_section<'a>(&self, g: &RepoGroup<'a>) -> (s: String)
        ensures
            s@ == group_block(self.spec_color(), group_view(*g)),
    {
        let ghost ms = group_view(*g).1;
        let counts = RepoCounts::from_results(&g.results);
        proof {
            crate::formatters::markdown::lemma_group_count(g.results@, OutcomeKind::Pass);
            crate::formatters::markdown::lemma_group_count(g.results@, OutcomeKind::Fail);
            crate::formatters::markdown::lemma_group_count(g.results@, OutcomeKind::Skip);
            crate::formatters::markdown::lemma_group_count(g.results@, OutcomeKind::Error);
        }
        let total = counts.total();
        let mut out = concat3(g.repo_name, "  — ", "");
        push_dec(&mut out, total);
        out.append(" ");
        out.append(if total == 1 { "policy" } else { "policies" });
        out.append(" (");
        let tally = format_repo_counts(&counts);
        out.append(tally.as_str());
        out.append(")\n");
        let width = group_name_width(g);
        let ghost head = out@;
        for i in 0..g.results.len()
            invariant
                ms == group_view(*g).1,
                width == name_width(ms),
                out@ == head + member_lines(self.spec_color(), width as nat, ms.take(i as int)),
        {
            proof { assert(ms.take(i + 1).drop_last() =~= ms.take(i as int)); }
            let (policy_name, rr) = g.results[i];
            let line = self.member_text(policy_name, rr, width);
            out.append(line.as_str());
        }
        proof {
            reveal_strlit("");
            assert(ms.take(ms.len() as int) =~= ms);
            assert(out@ =~= group_block(self.spec_color(), group_view(*g)));
        }
        out
    }
}

fn group_name_width<'a>(g: &RepoGroup<'a>) -> (w: usize)
    ensures
        w == name_width(group_view(*g).1),
{
    let ghost ms = group_view(*g).1;
    let mut w: usize = 0;
    for i in 0..g.results.len()
        invariant
            ms == group_view(*g).1,
            w == name_width(ms.take(i as int)),
    {
        proof { assert(ms.take(i + 1).drop_last() =~= ms.take(i as int)); }
        let n = g.results[i].0.unicode_len();
        if n > w {
            w = n;
        }
    }
    proof { assert(ms.take(ms.len() as int) =~= ms); }
    w
}

fn pad_exec(s: &str, w: usize) -> (r: String)
    ensures
        r@ == pad_right(s@, w as nat),
{
    let n = s.unicode_len();
    let mut r = s.to_owned();
    if n >= w {
        return r;
    }
    let mut k: usize = n;
    while k < w
        invariant
            n == s@.len(),
            n <= k <= w,
            r@ == s@ + Seq::new((k - n) as nat, |i: int| ' '),
        decreases w - k,
    {
        push_char(&mut r, ' ');
        proof {
            assert(s@ + Seq::new((k + 1 - n) as nat, |i: int| ' ') =~= (s@ + Seq::new((k - n) as nat, |i: int| ' ')).push(' '));
        }
        k = k + 1;
    }
    r
}

impl Formatter for TableFormatter {
    fn name(&self) -> (s: &str)
        ensures
            s@ == "table"@,
    {
        "table"
    }

    fn format(&self, report: &Report) -> (r: Result<String, CoreError>)
        ensures
            r matches Ok(s) && s@ == tb_report(self.spec_color(), *report),
    {
        let mut out = String::new();
        let (planned_settings_v, planned_protection_v) = plan_apply_actions(report);
        let planned_autolinks_v = plan_autolinks(report);
        let ps = &report.results;
        for i in 0..ps.len()
            invariant
                ps@ == report.results@,
                out@ == check_blocks(self.spec_color(), ps@.take(i as int)),
        {
            proof { assert(ps@.take(i + 1).drop_last() =~= ps@.take(i as int)); }
            if i > 0 {
                out.append("\n");
            }
            let rows = self.check_table_rows(&ps[i]);
            let block = self.render_policy_block(&ps[i], &rows);
            out.append(block.as_str());
            proof { reveal_strlit("\n"); }
        }
        proof { assert(ps@.take(ps@.len() as int) =~= ps@); }
        let settings_part = planned_settings_text(&planned_settings_v);
        out.append(settings_part.as_str());
        let protection_part = planned_protection_text(&planned_protection_v);
        out.append(protection_part.as_str());
        let autolink_part = planned_autolink_text(&planned_autolinks_v);
        out.append(autolink_part.as_str());
        if ps.len() > 0 {
            out.append("\n");
        }
        let ov = format_overview(report);
        out.append(ov.as_str());
        let prs = format_pr_summary_for_check(report);
        let settings = format_settings_summary_for_check(&planned_settings_v);
        let protection = format_branch_protection_summary_for_check(&planned_protection_v);
        let tail = footer(prs.as_str(), settings.as_str(), protection.as_str());
        out.append(tail.as_str());
        proof {
            assert(planned_settings_v@.len() == planned_settings(*report).len());
            assert(planned_protection_v@.len() == planned_protections(*report).len());
            assert(out@ =~= tb_report(self.spec_color(), *report));
        }
        Ok(out)
    }

    fn format_by_repo(&self, report: &Report) -> (r: Result<String, CoreError>)
        ensures
            r matches Ok(s) && s@ == tb_by_repo(self.spec_color(), *report),
    {
        let mut out = String::new();
        let groups = group_by_repo(report);
        let ghost gv = groups_view(groups@);
        for i in 0..groups.len()
            invariant
                gv == groups_view(groups@),
                out@ == group_blocks(self.spec_color(), gv.take(i as int)),
        {
            proof { assert(gv.take(i + 1).drop_last() =~= gv.take(i as int)); }
            if i > 0 {
                out.append("\n");
            }
            let section = self.group_section(&groups[i]);
            out.append(section.as_str());
            proof { reveal_strlit("\n"); }
        }
        proof { assert(gv.take(gv.len() as int) =~= gv); }
        if groups.len() > 0 {
            out.append("\n");
        }
        let ov = format_overview(report);
        out.append(ov.as_str());
        proof { assert(out@ =~= tb_by_repo(self.spec_color(), *report)); }
        Ok(out)
    }

    fn format_apply(&self, apply_report: &ApplyReport) -> (r: Result<String, CoreError>)
        ensures
            r matches Ok(s) && s@ == tb_apply(self.spec_color(), *apply_report),
    {
        let report = &apply_report.report;
        let map = build_pr_action_map(apply_report);
        let ghost ev = entry_views(map@);
        let mut out = String::new();
        let ps = &report.results;
        for i in 0..ps.len()
            invariant
                ps@ == report.results@,
                ev == entry_views(map@),
                out@ == apply_blocks(self.spec_color(), ev, ps@.take(i as int)),
        {
            proof { assert(ps@.take(i + 1).drop_last() =~= ps@.take(i as int)); }
            if i > 0 {
                out.append("\n");
            }
            let rows = self.apply_table_rows(&map, &ps[i]);
            let block = self.render_policy_block(&ps[i], &rows);
            out.append(block.as_str());
            proof { reveal_strlit("\n"); }
        }
        proof { assert(ps@.take(ps@.len() as int) =~= ps@); }
        let settings_part = applied_settings_text(apply_report);
        out.append(settings_part.as_str());
        let protection_part = applied_protection_text(apply_report);
        out.append(protection_part.as_str());
        let autolink_part = applied_autolink_text(apply_report);
        out.append(autolink_part.as_str());
        if ps.len() > 0 {
            out.append("\n");
        }
        let ov = format_overview(report);
        out.append(ov.as_str());
        let prs = format_pr_summary(apply_report);
        let settings = format_settings_summary(apply_report);
        let protection = format_branch_protection_summary(apply_report);
        let tail = footer(prs.as_str(), settings.as_str(), protection.as_str());
        out.append(tail.as_str());
        proof {
            assert(out@ =~= tb_apply(self.spec_color(), *apply_report));
        }
        Ok(out)
    }
}

fn planned_settings_text(planned: &Vec<SettingsAction>) -> (s: String)
    requires
        all_dry_settings(planned@),
    ensures
        s@ == planned_settings_section(settings_entries(planned@)),
{
    let mut out = String::new();
    proof { lemma_planned_settings_rows(planned@); }
    if planned.len() > 0 {
        out.append("\n");
        out.append("Repo settings updates:\n");
        let empty: Vec<SettingsAction> = Vec::new();
        let table = render_settings_table(planned, &empty);
        proof { assert(settings_rows(empty@, true) =~= Seq::<Seq<Seq<char>>>::empty()); }
        out.append(table.as_str());
        out.append("\n");
    }
    proof {
        assert(seq![settings_header()] + settings_rows(planned@, false) + settings_rows(Seq::<SettingsAction>::empty(), true)
            =~= seq![settings_header()] + planned_settings_rows(settings_entries(planned@)));
        assert(out@ =~= planned_settings_section(settings_entries(planned@)));
    }
    out
}

fn planned_protection_text(planned: &Vec<BranchProtectionAction>) -> (s: String)
    requires
        all_dry_protections(planned@),
    ensures
        s@ == planned_protection_section(protection_entries(planned@)),
{
    let mut out = String::new();
    proof { lemma_planned_protection_rows(planned@); }
    if planned.len() > 0 {
        out.append("\n");
        out.append("Branch protection updates:\n");
        let empty: Vec<BranchProtectionAction> = Vec::new();
        let table = render_protection_table(planned, &empty);
        proof { assert(protection_rows(empty@, true) =~= Seq::<Seq<Seq<char>>>::empty()); }
        out.append(table.as_str());
        out.append("\n");
    }
    proof {
        assert(seq![protection_header()] + protection_rows(planned@, false) + protection_rows(Seq::<BranchProtectionAction>::empty(), true)
            =~= seq![protection_header()] + planned_protection_rows(protection_entries(planned@)));
        assert(out@ =~= planned_protection_section(protection_entries(planned@)));
    }
    out
}

fn applied_settings_text(ar: &ApplyReport) -> (s: String)
    ensures
        s@ == applied_settings_section(*ar),
{
    let mut out = String::new();
    if has_settings_actions(ar) {
        out.append("\n");
        out.append("Repo settings updates:\n");
        let table = render_settings_table(&ar.settings_applied, &ar.settings_errored);
        out.append(table.as_str());
        out.append("\n");
    }
    proof { assert(out@ =~= applied_settings_section(*ar)); }
    out
}

fn applied_protection_text(ar: &ApplyReport) -> (s: String)
    ensures
        s@ == applied_protection_section(*ar),
{
    let mut out = String::new();
    if has_branch_protection_actions(ar) {
        out.append("\n");
        out.append("Branch protection updates:\n");
        let table = render_protection_table(&ar.branch_protection_applied, &ar.branch_protection_errored);
        out.append(table.as_str());
        out.append("\n");
    }
    proof { assert(out@ =~= applied_protection_section(*ar)); }
    out
}

fn autolink_cells(a: &AutolinkAction, errored: bool) -> (v: Vec<String>)
    ensures
        v.deep_view() == autolink_row(*a, errored),
{
    let action = if errored {
        match &a.error {
            Some(e) => concat3("error: ", e.as_str(), ""),
            None => "error".to_owned(),
        }
    } else {
        match a.action {
            SettingsActionKind::Applied => "autolink updated".to_owned(),
            SettingsActionKind::DryRun => "would update autolink".to_owned(),
            SettingsActionKind::Error => "error".to_owned(),
        }
    };
    let link = concat3(a.spec.key_prefix.as_str(), " -> ", a.spec.url_template.as_str());
    proof {
        reveal_strlit("");
        reveal_strlit("autolink updated");
        reveal_strlit("would update autolink");
        reveal_strlit("autolink");
        reveal_strlit(" updated");
        reveal_strlit("would update ");
        assert("autolink updated"@ =~= "autolink"@ + " updated"@);
        assert("would update autolink"@ =~= "would update "@ + "autolink"@);
    }
    let v = cells4(a.repo_name.clone(), a.policy_name.clone(), action, link);
    proof { assert(v.deep_view() =~= autolink_row(*a, errored)); }
    v
}

fn push_autolink_rows(rows: &mut Vec<Vec<String>>, actions: &Vec<AutolinkAction>, errored: bool)
    ensures
        final(rows).deep_view() == old(rows).deep_view() + autolink_rows(actions@, errored),
{
    let ghost start = rows.deep_view();
    for i in 0..actions.len()
        invariant
            rows.deep_view() == start + autolink_rows(actions@.take(i as int), errored),
    {
        let cells = autolink_cells(&actions[i], errored);
        push_row(rows, cells);
        proof {
            assert(autolink_rows(actions@.take(i + 1), errored) =~= autolink_rows(actions@.take(i as int), errored).push(autolink_row(actions@[i as int], errored)));
        }
    }
    proof { assert(actions@.take(actions@.len() as int) =~= actions@); }
}

fn applied_autolink_text(ar: &ApplyReport) -> (s: String)
    ensures
        s@ == applied_autolink_section(*ar),
{
    let mut out = String::new();
    if ar.autolinks_applied.len() > 0 || ar.autolinks_errored.len() > 0 {
        out.append("\n");
        out.append("Autolink updates:\n");
        let mut rows: Vec<Vec<String>> = Vec::new();
        proof { assert(rows.deep_view() =~= Seq::<Seq<Seq<char>>>::empty()); }
        push_row(&mut rows, header4("Repository", "Policy", "Action", "Autolink"));
        push_autolink_rows(&mut rows, &ar.autolinks_applied, false);
        push_autolink_rows(&mut rows, &ar.autolinks_errored, true);
        proof {
            assert(rows.deep_view() =~= seq![autolink_header()] + autolink_rows(ar.autolinks_applied@, false)
                + autolink_rows(ar.autolinks_errored@, true));
        }
        let table = render_sharp_table(&rows);
        out.append(table.as_str());
        out.append("\n");
    }
    proof { assert(out@ =~= applied_autolink_section(*ar)); }
    out
}

proof fn lemma_planned_autolink_rows(s: Seq<AutolinkAction>)
    requires
        all_dry_autolinks(s),
    ensures
        autolink_rows(s, false) == planned_autolink_rows(autolink_entries(s)),
{
    assert forall|i: int| 0 <= i < s.len() implies #[trigger] autolink_rows(s, false)[i]
        == planned_autolink_rows(autolink_entries(s))[i] by {
        reveal_strlit("autolink");
        reveal_strlit("would update ");
        reveal_strlit("would update autolink");
        assert("would update autolink"@ =~= "would update "@ + "autolink"@);
        assert(s[i].action == SettingsActionKind::DryRun);
    }
    assert(autolink_rows(s, false) =~= planned_autolink_rows(autolink_entries(s)));
}

fn planned_autolink_text(planned: &Vec<AutolinkAction>) -> (s: String)
    requires
        all_dry_autolinks(planned@),
    ensures
        s@ == planned_autolink_section(autolink_entries(planned@)),
{
    let mut out = String::new();
    proof { lemma_planned_autolink_rows(planned@); }
    if planned.len() > 0 {
        out.append("\n");
        out.append("Autolink updates:\n");
        let mut rows: Vec<Vec<String>> = Vec::new();
        proof { assert(rows.deep_view() =~= Seq::<Seq<Seq<char>>>::empty()); }
        push_row(&mut rows, header4("Repository", "Policy", "Action", "Autolink"));
        push_autolink_rows(&mut rows, planned, false);
        proof { assert(rows.deep_view() =~= seq![autolink_header()] + planned_autolink_rows(autolink_entries(planned@))); }
        let table = render_sharp_table(&rows);
        out.append(table.as_str());
        out.append("\n");
    }
    proof { assert(out@ =~= planned_autolink_section(autolink_entries(planned@))); }
    out
}

} // verus!
