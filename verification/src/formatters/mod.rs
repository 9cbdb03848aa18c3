//! Renderers for check and apply reports, and the pieces they share.

pub mod markdown;
pub mod sarif;
pub mod table;

use vstd::prelude::*;
use vstd::string::*;

use crate::formatter::{count_kind, OutcomeKind, PolicyCounts, PolicyReport, RepoCounts, RepoOutcome};
use crate::text::{concat3, dec, join, join_strings, usize_to_string};

verus! {

/// The status word of an outcome kind.
pub open spec fn status_label(k: OutcomeKind) -> Seq<char> {
    match k {
        OutcomeKind::Pass => "PASS"@,
        OutcomeKind::Fail => "FAIL"@,
        OutcomeKind::Skip => "SKIP"@,
        OutcomeKind::Error => "ERROR"@,
    }
}

/// The status word of an outcome.
pub fn status_text(o: &RepoOutcome) -> (s: &'static str)
    ensures
        s@ == status_label(o.spec_kind()),
{
    match o {
        RepoOutcome::Pass { .. } => "PASS",
        RepoOutcome::Fail { .. } => "FAIL",
        RepoOutcome::Skip { .. } => "SKIP",
        RepoOutcome::Error { .. } => "ERROR",
    }
}

/// `n / d` rounded to the nearest integer, ties to the even neighbour.
pub open spec fn div_round_half_even(n: nat, d: nat) -> nat {
    let q = n / d;
    let r = n % d;
    if 2 * r > d {
        q + 1
    } else if 2 * r == d && q % 2 == 1 {
        q + 1
    } else {
        q
    }
}

/// The pass rate `100 * p / e` with one decimal, as `{:.1}` prints it.
pub open spec fn rate_text(p: nat, e: nat) -> Seq<char> {
    let t = div_round_half_even(1000 * p, e);
    dec(t / 10) + "."@ + dec(t % 10)
}

/// The pass rate `100 * passing / evaluated` rounded to one decimal.
pub fn format_rate(passing: usize, evaluated: usize) -> (s: String)
    requires
        0 < evaluated,
        passing <= evaluated,
    ensures
        s@ == rate_text(passing as nat, evaluated as nat),
{
    let n: u128 = (passing as u128) * 1000;
    let d: u128 = evaluated as u128;
    let q: u128 = n / d;
    let r: u128 = n % d;
    assert(q <= 1000) by (nonlinear_arith)
        requires
            n <= 1000 * d,
            d > 0,
            q == n / d,
    ;
    let t: u128 = if 2 * r > d {
        q + 1
    } else if 2 * r == d && q % 2 == 1 {
        q + 1
    } else {
        q
    };
    let whole = usize_to_string((t / 10) as usize);
    let frac = usize_to_string((t % 10) as usize);
    concat3(whole.as_str(), ".", frac.as_str())
}

/// `error` for one, `errors` otherwise.
pub open spec fn errors_word(n: nat) -> Seq<char> {
    if n == 1 { "error"@ } else { "errors"@ }
}

/// The per-policy counts line: every kind, then the pass rate when anything was evaluated.
pub open spec fn counts_line(p: nat, f: nat, s: nat, e: nat) -> Seq<char> {
    dec(p) + " pass, "@ + dec(f) + " fail, "@ + dec(s) + " skip, "@ + dec(e) + " "@ + errors_word(e) + if p + f > 0 {
        " ("@ + rate_text(p, p + f) + "% pass)"@
    } else {
        Seq::empty()
    }
}

/// The counts line of one policy's results.
pub open spec fn policy_counts_line(p: PolicyReport) -> Seq<char> {
    let rs = p.repo_results@;
    counts_line(
        count_kind(rs, OutcomeKind::Pass),
        count_kind(rs, OutcomeKind::Fail),
        count_kind(rs, OutcomeKind::Skip),
        count_kind(rs, OutcomeKind::Error),
    )
}

fn push_num(out: &mut String, n: usize)
    ensures
        final(out)@ == old(out)@ + dec(n as nat),
{
    crate::text::push_dec(out, n);
}

/// Render the counts line of a tally.
pub fn format_counts_line(c: &PolicyCounts) -> (s: String)
    requires
        c.passing + c.failing <= usize::MAX,
    ensures
        s@ == counts_line(c.passing as nat, c.failing as nat, c.skipped as nat, c.errors as nat),
{
    let mut s = String::new();
    push_num(&mut s, c.passing);
    s.append(" pass, ");
    push_num(&mut s, c.failing);
    s.append(" fail, ");
    push_num(&mut s, c.skipped);
    s.append(" skip, ");
    push_num(&mut s, c.errors);
    s.append(" ");
    s.append(if c.errors == 1 { "error" } else { "errors" });
    let ev = c.passing + c.failing;
    if ev > 0 {
        s.append(" (");
        let rate = format_rate(c.passing, ev);
        s.append(rate.as_str());
        s.append("% pass)");
    }
    proof {
        assert(s@ =~= counts_line(c.passing as nat, c.failing as nat, c.skipped as nat, c.errors as nat));
    }
    s
}

/// The compact tally of a repository's results: the non-zero kinds, or `no evaluations`.
pub open spec fn repo_counts_text(p: nat, f: nat, s: nat, e: nat) -> Seq<char> {
    let parts = (if p > 0 { seq![dec(p) + " pass"@] } else { Seq::empty() })
        + (if f > 0 { seq![dec(f) + " fail"@] } else { Seq::empty() })
        + (if s > 0 { seq![dec(s) + " skip"@] } else { Seq::empty() })
        + (if e > 0 { seq![dec(e) + " "@ + errors_word(e)] } else { Seq::empty() });
    if parts.len() == 0 { "no evaluations"@ } else { join(parts, ", "@) }
}

fn push_part(parts: &mut Vec<String>, n: usize, label: &str)
    ensures
        final(parts).deep_view() == old(parts).deep_view() + (if n > 0 {
            seq![dec(n as nat) + label@]
        } else {
            Seq::<Seq<char>>::empty()
        }),
{
    let ghost before = parts.deep_view();
    if n > 0 {
        let mut s = usize_to_string(n);
        s.append(label);
        parts.push(s);
    }
    proof {
        assert(parts.deep_view() =~= before + (if n > 0 {
            seq![dec(n as nat) + label@]
        } else {
            Seq::<Seq<char>>::empty()
        }));
    }
}

/// Render the compact tally of a repository's results.
pub fn format_repo_counts(c: &RepoCounts) -> (s: String)
    ensures
        s@ == repo_counts_text(c.passing as nat, c.failing as nat, c.skipped as nat, c.errors as nat),
{
    let mut parts: Vec<String> = Vec::new();
    proof { assert(parts.deep_view() =~= Seq::<Seq<char>>::empty()); }
    push_part(&mut parts, c.passing, " pass");
    push_part(&mut parts, c.failing, " fail");
    push_part(&mut parts, c.skipped, " skip");
    push_part(&mut parts, c.errors, if c.errors == 1 { " error" } else { " errors" });
    proof {
        reveal_strlit(" error");
        reveal_strlit(" errors");
        reveal_strlit(" ");
        reveal_strlit("error");
        reveal_strlit("errors");
        assert(" error"@ =~= " "@ + "error"@);
        assert(" errors"@ =~= " "@ + "errors"@);
        let e = c.errors as nat;
        assert(e > 0 ==> dec(e) + (if c.errors == 1 { " error"@ } else { " errors"@ }) =~= dec(e) + " "@ + errors_word(e));
    }
    if parts.len() == 0 {
        "no evaluations".to_owned()
    } else {
        join_strings(&parts, ", ")
    }
}

/// `policy` for one, `policies` otherwise.
pub open spec fn policies_word(n: nat) -> Seq<char> {
    if n == 1 { "policy"@ } else { "policies"@ }
}

/// The success-rate sentence body shared by both overviews: `R%` then `(P pass / E evaluated)`.
pub open spec fn rate_detail(p: nat, e: nat, gap: Seq<char>) -> Seq<char> {
    rate_text(p, e) + "%"@ + gap + "("@ + dec(p) + " pass / "@ + dec(e) + " evaluated)"@
}

} // verus!
