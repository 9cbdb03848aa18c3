//! The command line's decisions: which policies run, which renderer and provider are used,
//! what `validate` prints and which exit status a run ends with.

use vstd::prelude::*;
use vstd::string::*;

use crate::config::{ConfigSource, PolicyConfig, ProviderConfig, ProviderType, RootConfig};
use crate::engine::executor::ApplyReport;
use crate::error::CoreError;
use crate::formatter::{report_fits, Formatter, PolicyReport, RepoOutcome, Report};
use crate::formatters::markdown::MarkdownFormatter;
use crate::formatters::table::TableFormatter;
use crate::model::{at_or_above, law_severity_order, Severity};
use crate::recipe::{params_view, ParamDef, ParamDefView, Recipe};
use crate::text::{concat3, dec, join, join_strings, push_char, push_dec, str_eq};

verus! {

/// A policy section has a failure or an error at or above the given severity.
pub open spec fn policy_fails(p: PolicyReport, fail_on: Severity) -> bool {
    p.severity.spec_rank() >= fail_on.spec_rank() && exists|j: int|
        0 <= j < p.repo_results@.len() && ((#[trigger] p.repo_results@[j]).outcome is Fail
            || p.repo_results@[j].outcome is Error)
}

/// Under `--fail-on t`, a policy makes the run fail exactly when its severity is `t` or more
/// severe and one of its repositories failed or erred: a failing info policy never fails a
/// warning or error threshold, and a failing error policy fails every threshold.
pub proof fn law_fail_on_threshold(p: PolicyReport, fail_on: Severity)
    ensures
        policy_fails(p, fail_on) == (at_or_above(p.severity, fail_on) && exists|j: int|
            0 <= j < p.repo_results@.len() && ((#[trigger] p.repo_results@[j]).outcome is Fail
                || p.repo_results@[j].outcome is Error)),
{
    law_severity_order(p.severity, fail_on);
}

/// Whether a run should end with exit status 1: some policy at or above `fail_on` has a
/// failing or erroring repository.
pub fn has_failure(report: &Report, fail_on: Severity) -> (b: bool)
    ensures
        b == exists|i: int| 0 <= i < report.results@.len() && policy_fails(#[trigger] report.results@[i], fail_on),
{
    let ps = &report.results;
    for i in 0..ps.len()
        invariant
            ps@ == report.results@,
            forall|k: int| 0 <= k < i ==> !policy_fails(#[trigger] ps@[k], fail_on),
    {
        if policy_has_failure(&ps[i], fail_on) {
            return true;
        }
    }
    false
}

fn policy_has_failure(p: &PolicyReport, fail_on: Severity) -> (b: bool)
    ensures
        b == policy_fails(*p, fail_on),
{
    if !p.severity.at_least(fail_on) {
        return false;
    }
    let rs = &p.repo_results;
    for j in 0..rs.len()
        invariant
            rs@ == p.repo_results@,
            p.severity.spec_rank() >= fail_on.spec_rank(),
            forall|k: int| 0 <= k < j ==> !((#[trigger] rs@[k]).outcome is Fail || rs@[k].outcome is Error),
    {
        match rs[j].outcome {
            RepoOutcome::Fail { .. } | RepoOutcome::Error { .. } => {
                proof { assert(rs@[j as int].outcome is Fail || rs@[j as int].outcome is Error); }
                return true;
            },
            _ => {},
        }
    }
    false
}

/// The exit status of a check or apply run: 1 when [`has_failure`], else 0.
pub fn exit_status(report: &Report, fail_on: Severity) -> (code: u8)
    ensures
        code == (if exists|i: int| 0 <= i < report.results@.len() && policy_fails(#[trigger] report.results@[i], fail_on) {
            1u8
        } else {
            0u8
        }),
{
    if has_failure(report, fail_on) { 1 } else { 0 }
}

/// The policies named in `names`, in their config order.
pub open spec fn named_policies(ps: Seq<PolicyConfig>, names: Seq<Seq<char>>) -> Seq<PolicyConfig>
    decreases ps.len(),
{
    if ps.len() == 0 {
        Seq::empty()
    } else {
        let rest = named_policies(ps.drop_last(), names);
        if names.contains(ps.last().name@) { rest.push(ps.last()) } else { rest }
    }
}

fn name_listed(names: &Vec<String>, n: &str) -> (b: bool)
    ensures
        b == names.deep_view().contains(n@),
{
    for i in 0..names.len()
        invariant
            forall|k: int| 0 <= k < i ==> names.deep_view()[k] != n@,
    {
        if str_eq(names[i].as_str(), n) {
            proof { assert(names.deep_view()[i as int] == n@); }
            return true;
        }
    }
    false
}

/// Keep only the policies named in `filter` (all of them when the filter is empty). A filter
/// that names none of the policies is an error.
pub fn filter_policies(policies: Vec<PolicyConfig>, filter: &Vec<String>) -> (r: Result<Vec<PolicyConfig>, String>)
    ensures
        filter@.len() == 0 ==> (r matches Ok(v) && v@ == policies@),
        filter@.len() > 0 ==> match r {
            Ok(v) => v@ == named_policies(policies@, filter.deep_view()) && v@.len() > 0,
            Err(m) => named_policies(policies@, filter.deep_view()).len() == 0
                && m@ == "no policies matched filter: "@ + join(filter.deep_view(), ", "@),
        },
{
    if filter.len() == 0 {
        return Ok(policies);
    }
    let ghost all = policies@;
    let mut kept: Vec<PolicyConfig> = Vec::new();
    let mut rest = policies;
    let mut taken: Vec<PolicyConfig> = Vec::new();
    proof { assert(rest@.take(0) =~= Seq::<PolicyConfig>::empty()); }
    let n = rest.len();
    let mut i: usize = 0;
    while i < n
        invariant
            n == all.len(),
            i <= n,
            rest@.len() == n - i,
            rest@ == all.skip(i as int),
            kept@ == named_policies(all.take(i as int), filter.deep_view()),
        decreases n - i,
    {
        let p = rest.remove(0);
        proof {
            assert(all.take(i + 1).drop_last() =~= all.take(i as int));
            assert(all.take(i + 1).last() == all[i as int]);
            assert(rest@ =~= all.skip(i + 1));
        }
        if name_listed(filter, p.name.as_str()) {
            kept.push(p);
        } else {
            taken.push(p);
        }
        i = i + 1;
    }
    proof { assert(all.take(n as int) =~= all); }
    proof { reveal_strlit(""); }
    if kept.len() == 0 {
        let joined = join_strings(filter, ", ");
        Err(concat3("no policies matched filter: ", joined.as_str(), ""))
    } else {
        Ok(kept)
    }
}

/// A renderer chosen by name.
pub enum AnyFormatter {
    Table(TableFormatter),
    Markdown(MarkdownFormatter),
}

/// Pick the renderer for `--format`: `table` (coloured unless `no_color`) or `markdown`.
pub fn create_formatter(format: &str, no_color: bool) -> (r: Result<AnyFormatter, String>)
    ensures
        format@ == "table"@ ==> (r matches Ok(AnyFormatter::Table(t)) && t.spec_color() == !no_color),
        format@ == "markdown"@ ==> r matches Ok(AnyFormatter::Markdown(_)),
        format@ != "table"@ && format@ != "markdown"@ ==> (r matches Err(m) && m@ == "unknown format: "@ + format@),
{
    proof {
        reveal_strlit("table");
        reveal_strlit("markdown");
        assert("table"@.len() != "markdown"@.len());
    }
    if str_eq(format, "table") {
        Ok(AnyFormatter::Table(TableFormatter::with_color(!no_color)))
    } else if str_eq(format, "markdown") {
        Ok(AnyFormatter::Markdown(MarkdownFormatter::new()))
    } else {
        proof { reveal_strlit(""); }
        Err(concat3("unknown format: ", format, ""))
    }
}

impl Formatter for AnyFormatter {
    fn name(&self) -> (s: &str)
        ensures
            s@ == match self {
                AnyFormatter::Table(_) => "table"@,
                AnyFormatter::Markdown(_) => "markdown"@,
            },
    {
        match self {
            AnyFormatter::Table(t) => t.name(),
            AnyFormatter::Markdown(m) => m.name(),
        }
    }

    fn format(&self, report: &Report) -> (r: Result<String, CoreError>)
        ensures
            match self {
                AnyFormatter::Table(t) => r matches Ok(s) && s@ == crate::formatters::table::tb_report(t.spec_color(), *report),
                AnyFormatter::Markdown(_) => r matches Ok(s) && s@ == crate::formatters::markdown::md_report(*report),
            },
    {
        match self {
            AnyFormatter::Table(t) => t.format(report),
            AnyFormatter::Markdown(m) => m.format(report),
        }
    }

    fn format_by_repo(&self, report: &Report) -> (r: Result<String, CoreError>)
        ensures
            match self {
                AnyFormatter::Table(t) => r matches Ok(s) && s@ == crate::formatters::table::tb_by_repo(t.spec_color(), *report),
                AnyFormatter::Markdown(_) => r matches Ok(s) && s@ == crate::formatters::markdown::md_by_repo(*report),
            },
    {
        match self {
            AnyFormatter::Table(t) => t.format_by_repo(report),
            AnyFormatter::Markdown(m) => m.format_by_repo(report),
        }
    }

    fn format_apply(&self, apply_report: &ApplyReport) -> (r: Result<String, CoreError>)
        ensures
            match self {
                AnyFormatter::Table(t) => r matches Ok(s) && s@ == crate::formatters::table::tb_apply(t.spec_color(), *apply_report),
                AnyFormatter::Markdown(_) => r matches Ok(s) && s@ == crate::formatters::markdown::md_apply(*apply_report),
            },
    {
        match self {
            AnyFormatter::Table(t) => t.format_apply(apply_report),
            AnyFormatter::Markdown(m) => m.format_apply(apply_report),
        }
    }
}

/// Whether a provider type can be used: only GitHub is implemented.
pub fn provider_supported(config: &ProviderConfig) -> (r: Result<(), String>)
    ensures
        config.provider_type == ProviderType::Github ==> r is Ok,
        config.provider_type == ProviderType::Gitea ==> (r matches Err(m) && m@ == "gitea provider is not yet implemented"@),
{
    match config.provider_type {
        ProviderType::Github => Ok(()),
        ProviderType::Gitea => Err("gitea provider is not yet implemented".to_owned()),
    }
}

/// The config source for a command-line path: a directory or a single file.
pub fn paths_to_sources(paths: &Vec<(String, bool)>) -> (v: Vec<ConfigSource>)
    ensures
        v@.len() == paths@.len(),
        forall|i: int| 0 <= i < paths@.len() ==> match #[trigger] v@[i] {
            ConfigSource::Directory(d) => paths@[i].1 && d@ == paths@[i].0@,
            ConfigSource::FilePath(f) => !paths@[i].1 && f@ == paths@[i].0@,
        },
{
    let mut v: Vec<ConfigSource> = Vec::new();
    for i in 0..paths.len()
        invariant
            v@.len() == i,
            forall|k: int| 0 <= k < i ==> match #[trigger] v@[k] {
                ConfigSource::Directory(d) => paths@[k].1 && d@ == paths@[k].0@,
                ConfigSource::FilePath(f) => !paths@[k].1 && f@ == paths@[k].0@,
            },
    {
        let (p, is_dir) = &paths[i];
        if *is_dir {
            v.push(ConfigSource::Directory(p.clone()));
        } else {
            v.push(ConfigSource::FilePath(p.clone()));
        }
    }
    v
}

/// Total number of rules across the policies `0..n`.
pub open spec fn rules_count(ps: Seq<PolicyConfig>, n: int) -> nat
    decreases n,
{
    if n <= 0 { 0 } else { rules_count(ps, n - 1) + ps[n - 1].rules@.len() }
}

/// The name of a provider type, as `validate` prints it.
pub open spec fn provider_type_name(t: ProviderType) -> Seq<char> {
    match t {
        ProviderType::Github => "github"@,
        ProviderType::Gitea => "gitea"@,
    }
}

/// The line `validate` prints for a valid configuration.
pub open spec fn validation_line(c: RootConfig) -> Seq<char> {
    let p = c.policies@.len();
    let r = rules_count(c.policies@, p as int);
    "Config is valid: "@ + dec(p) + (if p == 1 { " policy"@ } else { " policies"@ }) + ", "@ + dec(r)
        + (if r == 1 { " rule"@ } else { " rules"@ }) + ", provider: "@ + provider_type_name(c.provider.provider_type)
        + ", org: "@ + c.provider.org@
}

/// Describe a valid configuration: how many policies and rules, and the provider.
pub fn validation_summary(config: &RootConfig) -> (s: String)
    requires
        rules_count(config.policies@, config.policies@.len() as int) <= usize::MAX,
    ensures
        s@ == validation_line(*config),
{
    let ps = &config.policies;
    let mut rules: usize = 0;
    for i in 0..ps.len()
        invariant
            ps@ == config.policies@,
            rules == rules_count(ps@, i as int),
            rules_count(ps@, ps@.len() as int) <= usize::MAX,
    {
        proof { lemma_rules_count_mono(ps@, i + 1, ps@.len() as int); }
        rules = rules + ps[i].rules.len();
    }
    let mut s = String::new();
    s.append("Config is valid: ");
    push_dec(&mut s, ps.len());
    s.append(if ps.len() == 1 { " policy" } else { " policies" });
    s.append(", ");
    push_dec(&mut s, rules);
    s.append(if rules == 1 { " rule" } else { " rules" });
    s.append(", provider: ");
    s.append(match config.provider.provider_type {
        ProviderType::Github => "github",
        ProviderType::Gitea => "gitea",
    });
    s.append(", org: ");
    s.append(config.provider.org.as_str());
    proof { assert(s@ =~= validation_line(*config)); }
    s
}

proof fn lemma_rules_count_mono(ps: Seq<PolicyConfig>, a: int, b: int)
    requires
        0 <= a <= b,
    ensures
        rules_count(ps, a) <= rules_count(ps, b),
    decreases b - a,
{
    if a < b {
        lemma_rules_count_mono(ps, a, b - 1);
    }
}

/// `s` padded on the right with spaces to at least `w` characters, as `{:<w}` writes it.
pub open spec fn pad(s: Seq<char>, w: nat) -> Seq<char> {
    if s.len() >= w {
        s
    } else {
        s + Seq::new((w - s.len()) as nat, |i: int| ' ')
    }
}

/// The rules the listing names, with what each does.
pub open spec fn rule_catalog() -> Seq<(Seq<char>, Seq<char>)> {
    seq![
        ("ensure_file"@, "Ensure a file exists with optional content matching"@),
        ("ensure_json_key"@, "Ensure a key exists in a JSON file"@),
        ("ensure_yaml_key"@, "Ensure a key exists in a YAML file"@),
        ("file_matches"@, "Check file content against a regex pattern"@),
    ]
}

fn catalog_entry(i: usize) -> (r: (&'static str, &'static str))
    requires
        i < 4,
    ensures
        (r.0@, r.1@) == rule_catalog()[i as int],
{
    if i == 0 {
        ("ensure_file", "Ensure a file exists with optional content matching")
    } else if i == 1 {
        ("ensure_json_key", "Ensure a key exists in a JSON file")
    } else if i == 2 {
        ("ensure_yaml_key", "Ensure a key exists in a YAML file")
    } else {
        ("file_matches", "Check file content against a regex pattern")
    }
}

/// How a parameter's need is shown: required, its default, or optional.
pub open spec fn requirement_text(d: ParamDefView) -> Seq<char> {
    if d.required {
        "required"@
    } else {
        match d.default {
            Some(v) => "default: "@ + v,
            None => "optional"@,
        }
    }
}

/// The allowed values of a parameter, as ` [a, b]`, or nothing.
pub open spec fn choices_text(d: ParamDefView) -> Seq<char> {
    match d.enum_values {
        Some(v) => " ["@ + join(v, ", "@) + "]"@,
        None => Seq::empty(),
    }
}

/// The listing's line for one parameter.
pub open spec fn param_line(name: Seq<char>, d: ParamDefView) -> Seq<char> {
    "      "@ + pad(name, 16) + " "@ + pad(d.param_type.spec_text(), 8) + " "@ + pad(requirement_text(d), 28) + " "@
        + match d.description {
        Some(t) => t,
        None => Seq::empty(),
    } + choices_text(d) + "\n"@
}

/// The listing's lines for parameters, in order.
pub open spec fn param_lines(ps: Seq<(Seq<char>, ParamDefView)>) -> Seq<char>
    decreases ps.len(),
{
    if ps.len() == 0 {
        Seq::empty()
    } else {
        param_lines(ps.drop_last()) + param_line(ps.last().0, ps.last().1)
    }
}

/// The listing's lines for one recipe: its name and description, and with `verbose` its
/// parameters.
pub open spec fn recipe_entry(r: Recipe, verbose: bool) -> Seq<char> {
    "  "@ + pad(r.name@, 20) + r.description@ + "\n"@ + if verbose {
        "    Parameters:\n"@ + param_lines(params_view(r.params@))
    } else {
        Seq::empty()
    }
}

/// The lines for the first `n` recipes.
pub open spec fn recipe_entries(rs: Seq<Recipe>, verbose: bool, n: int) -> Seq<char>
    decreases n,
{
    if n <= 0 {
        Seq::empty()
    } else {
        recipe_entries(rs, verbose, n - 1) + recipe_entry(rs[n - 1], verbose)
    }
}

/// One name per line, for the first `n` recipes.
pub open spec fn recipe_name_lines(rs: Seq<Recipe>, n: int) -> Seq<char>
    decreases n,
{
    if n <= 0 {
        Seq::empty()
    } else {
        recipe_name_lines(rs, n - 1) + rs[n - 1].name@ + "\n"@
    }
}

/// The catalog rules, one per line: with `quiet` the name alone, otherwise the padded name
/// and what the rule does.
pub open spec fn rule_lines(quiet: bool, n: int) -> Seq<char>
    decreases n,
{
    if n <= 0 {
        Seq::empty()
    } else {
        rule_lines(quiet, n - 1) + if quiet {
            rule_catalog()[n - 1].0 + "\n"@
        } else {
            "  "@ + pad(rule_catalog()[n - 1].0, 20) + rule_catalog()[n - 1].1 + "\n"@
        }
    }
}

/// The text `list-rules` prints: with `quiet` the rule names and recipe names one per line;
/// otherwise a `Rules:` section and a `Recipes:` section, the recipes with their parameters
/// when `verbose`.
pub open spec fn rule_listing(verbose: bool, quiet: bool, rs: Seq<Recipe>) -> Seq<char> {
    if quiet {
        rule_lines(true, 4) + recipe_name_lines(rs, rs.len() as int)
    } else {
        "Rules:\n"@ + rule_lines(false, 4) + "\nRecipes:\n"@ + recipe_entries(rs, verbose, rs.len() as int)
    }
}

fn push_padded(out: &mut String, s: &str, w: usize)
    ensures
        final(out)@ == old(out)@ + pad(s@, w as nat),
{
    let ghost o0 = out@;
    out.append(s);
    let n = s.unicode_len();
    let mut k = n;
    while k < w
        invariant
            n == s@.len(),
            n <= k || w <= k || k == n,
            k >= n,
            k <= w || k == n,
            out@ == o0 + s@ + Seq::new((k - n) as nat, |i: int| ' '),
        decreases w - k,
    {
        let ghost before = out@;
        push_char(out, ' ');
        proof {
            assert(Seq::new((k + 1 - n) as nat, |i: int| ' ') =~= Seq::new((k - n) as nat, |i: int| ' ').push(' '));
        }
        k = k + 1;
    }
    proof {
        if n >= w {
            assert(Seq::new((k - n) as nat, |i: int| ' ') =~= Seq::<char>::empty());
            assert(o0 + s@ + Seq::<char>::empty() =~= o0 + s@);
        }
    }
}

fn requirement(d: &ParamDef) -> (r: String)
    ensures
        r@ == requirement_text(d@),
{
    if d.required {
        "required".to_owned()
    } else {
        match &d.default {
            Some(v) => {
                let mut r = "default: ".to_owned();
                r.append(v.as_str());
                r
            },
            None => "optional".to_owned(),
        }
    }
}

fn choices(d: &ParamDef) -> (r: String)
    ensures
        r@ == choices_text(d@),
{
    match &d.enum_values {
        Some(v) => {
            let mut r = " [".to_owned();
            let joined = join_strings(v, ", ");
            r.append(joined.as_str());
            r.append("]");
            r
        },
        None => String::new(),
    }
}

fn description_of(d: &ParamDef) -> (r: &str)
    ensures
        r@ == match d@.description {
            Some(t) => t,
            None => Seq::<char>::empty(),
        },
{
    match &d.description {
        Some(t) => t.as_str(),
        None => {
            proof { reveal_strlit(""); }
            ""
        },
    }
}

fn push_param_line(out: &mut String, name: &str, d: &ParamDef)
    ensures
        final(out)@ == old(out)@ + param_line(name@, d@),
{
    let ghost o0 = out@;
    let t = d.param_type.to_text();
    let req = requirement(d);
    let desc = description_of(d);
    let hint = choices(d);
    out.append("      ");
    push_padded(out, name, 16);
    out.append(" ");
    push_padded(out, t.as_str(), 8);
    out.append(" ");
    let ghost mid = out@;
    push_padded(out, req.as_str(), 28);
    out.append(" ");
    out.append(desc);
    out.append(hint.as_str());
    out.append("\n");
    proof {
        let dv = d@;
        assert(mid == o0 + "      "@ + pad(name@, 16) + " "@ + pad(dv.param_type.spec_text(), 8) + " "@);
        assert(out@ =~= o0 + param_line(name@, dv));
    }
}

fn push_recipe_entry(out: &mut String, r: &Recipe, verbose: bool)
    ensures
        final(out)@ == old(out)@ + recipe_entry(*r, verbose),
{
    let ghost o0 = out@;
    out.append("  ");
    push_padded(out, r.name.as_str(), 20);
    out.append(r.description.as_str());
    out.append("\n");
    let ghost head = out@;
    if verbose {
        out.append("    Parameters:\n");
        let ghost pv = params_view(r.params@);
        let mut i: usize = 0;
        let ghost start = out@;
        proof { assert(pv.take(0) =~= Seq::<(Seq<char>, ParamDefView)>::empty()); }
        while i < r.params.len()
            invariant
                pv == params_view(r.params@),
                i <= r.params@.len(),
                out@ == start + param_lines(pv.take(i as int)),
            decreases r.params@.len() - i,
        {
            proof {
                assert(pv.take(i + 1).drop_last() =~= pv.take(i as int));
                assert(pv.take(i + 1).last() == (r.params@[i as int].0@, r.params@[i as int].1@));
            }
            push_param_line(out, r.params[i].0.as_str(), &r.params[i].1);
            proof { assert(start + param_lines(pv.take(i as int)) + param_line(r.params@[i as int].0@, r.params@[i as int].1@) =~= start + param_lines(pv.take(i + 1))); }
            i = i + 1;
        }
        proof {
            assert(pv.take(r.params@.len() as int) =~= pv);
            assert(out@ =~= o0 + recipe_entry(*r, verbose));
        }
    } else {
        proof { assert(out@ =~= o0 + recipe_entry(*r, verbose)); }
    }
}

/// The text the `list-rules` command prints (see [`rule_listing`]).
pub fn list_rules_text(verbose: bool, quiet: bool, recipes: &Vec<Recipe>) -> (s: String)
    ensures
        s@ == rule_listing(verbose, quiet, recipes@),
{
    let mut out = String::new();
    if !quiet {
        out.append("Rules:\n");
    }
    let ghost o0 = out@;
    let mut i: usize = 0;
    while i < 4
        invariant
            i <= 4,
            out@ == o0 + rule_lines(quiet, i as int),
        decreases 4 - i,
    {
        let (name, desc) = catalog_entry(i);
        let ghost before = out@;
        if quiet {
            out.append(name);
            out.append("\n");
        } else {
            out.append("  ");
            push_padded(&mut out, name, 20);
            out.append(desc);
            out.append("\n");
        }
        proof { assert(out@ =~= o0 + rule_lines(quiet, i + 1)); }
        i = i + 1;
    }
    if !quiet {
        out.append("\nRecipes:\n");
    }
    let ghost o1 = out@;
    let mut k: usize = 0;
    while k < recipes.len()
        invariant
            k <= recipes@.len(),
            out@ == o1 + if quiet { recipe_name_lines(recipes@, k as int) } else { recipe_entries(recipes@, verbose, k as int) },
        decreases recipes@.len() - k,
    {
        if quiet {
            out.append(recipes[k].name.as_str());
            out.append("\n");
            proof { assert(out@ =~= o1 + recipe_name_lines(recipes@, k + 1)); }
        } else {
            push_recipe_entry(&mut out, &recipes[k], verbose);
            proof { assert(out@ =~= o1 + recipe_entries(recipes@, verbose, k + 1)); }
        }
        k = k + 1;
    }
    proof {
        if quiet {
            assert(out@ =~= rule_listing(verbose, quiet, recipes@));
        } else {
            assert(out@ =~= rule_listing(verbose, quiet, recipes@));
        }
    }
    out
}

} // verus!
