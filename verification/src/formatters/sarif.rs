//! SARIF 2.1.0 logs of check reports: one rule per policy, one result per failing or
//! errored repository.

use vstd::prelude::*;

use crate::formatter::{PolicyReport, RepoOutcome, RepoResult, Report};
use crate::json::{jes, jv, jvs, lemma_jes, lemma_jvs, Json, JsonEntry, JsonV};
use crate::model::Severity;
use crate::policy_source::opt_view;

verus! {

/// Renders reports as SARIF logs.
pub struct SarifFormatter;

/// Where the SARIF 2.1.0 schema is published.
pub open spec fn sarif_schema() -> Seq<char> {
    "https://raw.githubusercontent.com/oasis-tcs/sarif-spec/main/sarif-2.1/schema/sarif-schema-2.1.0.json"@
}

/// The version the tool reports itself as.
pub open spec fn tool_version() -> Seq<char> {
    "0.4.0"@
}

/// The SARIF level of a policy severity.
pub open spec fn sarif_level(s: Severity) -> Seq<char> {
    match s {
        Severity::Info => "note"@,
        Severity::Warning => "warning"@,
        Severity::Error => "error"@,
    }
}

/// A one-entry object.
pub open spec fn single(k: Seq<char>, v: JsonV) -> JsonV {
    JsonV::Object(seq![(k, v)])
}

/// The rule descriptor of a policy: its name, described by its description or else its name.
pub open spec fn rule_descriptor(p: PolicyReport) -> JsonV {
    JsonV::Object(seq![
        ("id"@, JsonV::Str(p.policy_name@)),
        ("shortDescription"@, single("text"@, JsonV::Str(match opt_view(p.description) {
            Some(d) => d,
            None => p.policy_name@,
        })))
    ])
}

/// The message of a result that is reported: a failure's detail or an error's message.
pub open spec fn reported_text(o: RepoOutcome) -> Option<Seq<char>> {
    match o {
        RepoOutcome::Fail { detail, .. } => Some(detail@),
        RepoOutcome::Error { message } => Some(message@),
        _ => None,
    }
}

/// The SARIF result for one repository under a policy, with its message.
pub open spec fn sarif_result(p: PolicyReport, repo: Seq<char>, text: Seq<char>) -> JsonV {
    JsonV::Object(seq![
        ("ruleId"@, JsonV::Str(p.policy_name@)),
        ("level"@, JsonV::Str(sarif_level(p.severity))),
        ("message"@, single("text"@, JsonV::Str(text))),
        ("locations"@, JsonV::Array(seq![single("physicalLocation"@, single("artifactLocation"@, single("uri"@, JsonV::Str(repo))))]))
    ])
}

/// The results of one policy, for its failing and errored repositories in order.
pub open spec fn policy_results(p: PolicyReport, rs: Seq<RepoResult>) -> Seq<JsonV>
    decreases rs.len(),
{
    if rs.len() == 0 {
        Seq::empty()
    } else {
        let rest = policy_results(p, rs.drop_last());
        match reported_text(rs.last().outcome) {
            Some(t) => rest.push(sarif_result(p, rs.last().repo_name@, t)),
            None => rest,
        }
    }
}

/// The results of every policy, in order.
pub open spec fn all_results(ps: Seq<PolicyReport>) -> Seq<JsonV>
    decreases ps.len(),
{
    if ps.len() == 0 {
        Seq::empty()
    } else {
        all_results(ps.drop_last()) + policy_results(ps.last(), ps.last().repo_results@)
    }
}

/// The SARIF log of a report: one run of the tool, its rules and its results.
pub open spec fn sarif_log(r: Report) -> JsonV {
    JsonV::Object(seq![
        ("$schema"@, JsonV::Str(sarif_schema())),
        ("version"@, JsonV::Str("2.1.0"@)),
        ("runs"@, JsonV::Array(seq![JsonV::Object(seq![
            ("tool"@, single("driver"@, JsonV::Object(seq![
                ("name"@, JsonV::Str("multipush"@)),
                ("version"@, JsonV::Str(tool_version())),
                ("rules"@, JsonV::Array(r.results@.map_values(|p: PolicyReport| rule_descriptor(p))))
            ]))),
            ("results"@, JsonV::Array(all_results(r.results@)))
        ])]))
    ])
}

fn entry(k: &str, v: Json) -> (e: JsonEntry)
    ensures
        e.key@ == k@,
        jv(e.value) == jv(v),
{
    JsonEntry { key: k.to_owned(), value: v }
}

fn single_json(k: &str, v: Json) -> (j: Json)
    ensures
        jv(j) == single(k@, jv(v)),
{
    let ghost vv = jv(v);
    let es = vec![entry(k, v)];
    proof {
        lemma_jes(es@);
        assert(jes(es@) =~= seq![(k@, vv)]);
    }
    Json::Object(es)
}

fn text_json(s: &str) -> (j: Json)
    ensures
        jv(j) == JsonV::Str(s@),
{
    Json::Str(s.to_owned())
}

fn severity_to_sarif(s: Severity) -> (t: &'static str)
    ensures
        t@ == sarif_level(s),
{
    match s {
        Severity::Info => "note",
        Severity::Warning => "warning",
        Severity::Error => "error",
    }
}

fn descriptor_json(p: &PolicyReport) -> (j: Json)
    ensures
        jv(j) == rule_descriptor(*p),
{
    let text = match &p.description {
        Some(d) => d.as_str(),
        None => p.policy_name.as_str(),
    };
    proof {
        assert(text@ == match opt_view(p.description) {
            Some(d) => d,
            None => p.policy_name@,
        });
    }
    let id = text_json(p.policy_name.as_str());
    let short = single_json("text", text_json(text));
    let ghost (a, b) = (jv(id), jv(short));
    let es = vec![entry("id", id), entry("shortDescription", short)];
    proof {
        lemma_jes(es@);
        assert(jes(es@) =~= seq![("id"@, a), ("shortDescription"@, b)]);
    }
    let r = Json::Object(es);
    proof {
        let rd = rule_descriptor(*p);
        assert(rd->Object_0[1] == ("shortDescription"@, b));
        assert(rd->Object_0 =~= seq![("id"@, a), ("shortDescription"@, b)]);
    }
    r
}

fn result_json(p: &PolicyReport, repo: &str, text: &str) -> (j: Json)
    ensures
        jv(j) == sarif_result(*p, repo@, text@),
{
    let uri = single_json("uri", text_json(repo));
    let artifact = single_json("artifactLocation", uri);
    let physical = single_json("physicalLocation", artifact);
    let ghost pv = jv(physical);
    let locs = vec![physical];
    proof {
        lemma_jvs(locs@);
        assert(jvs(locs@) =~= seq![pv]);
    }
    let rule_id = text_json(p.policy_name.as_str());
    let level = text_json(severity_to_sarif(p.severity));
    let message = single_json("text", text_json(text));
    let locations = Json::Array(locs);
    let ghost (a, b, c, d) = (jv(rule_id), jv(level), jv(message), jv(locations));
    let es = vec![entry("ruleId", rule_id), entry("level", level), entry("message", message), entry("locations", locations)];
    proof {
        lemma_jes(es@);
        assert(jes(es@) =~= seq![("ruleId"@, a), ("level"@, b), ("message"@, c), ("locations"@, d)]);
    }
    Json::Object(es)
}

impl SarifFormatter {
    pub fn new() -> (f: Self) {
        SarifFormatter
    }

    /// Formatter identifier.
    pub fn name(&self) -> (s: &str)
        ensures
            s@ == "sarif"@,
    {
        "sarif"
    }

    /// The SARIF log of a check report (see [`sarif_log`]); the JSON text of it is this
    /// value written out.
    pub fn log(&self, report: &Report) -> (j: Json)
        ensures
            jv(j) == sarif_log(*report),
    {
        let ps = &report.results;
        let mut rules: Vec<Json> = Vec::new();
        let mut results: Vec<Json> = Vec::new();
        let ghost rv = ps@.map_values(|p: PolicyReport| rule_descriptor(p));
        let mut i: usize = 0;
        proof {
            lemma_jvs(rules@);
            lemma_jvs(results@);
            assert(jvs(rules@) =~= rv.take(0));
            assert(jvs(results@) =~= all_results(ps@.take(0)));
        }
        while i < ps.len()
            invariant
                ps@ == report.results@,
                rv == ps@.map_values(|p: PolicyReport| rule_descriptor(p)),
                i <= ps@.len(),
                jvs(rules@) == rv.take(i as int),
                jvs(results@) == all_results(ps@.take(i as int)),
            decreases ps@.len() - i,
        {
            let p = &ps[i];
            let ghost before_rules = rules@;
            rules.push(descriptor_json(p));
            proof {
                lemma_jvs(rules@);
                lemma_jvs(before_rules);
                assert(jvs(rules@) =~= rv.take(i + 1));
            }
            let ghost base = jvs(results@);
            let rs = &p.repo_results;
            let mut j: usize = 0;
            proof { assert(policy_results(*p, rs@.take(0)) =~= Seq::<JsonV>::empty()); assert(base + Seq::<JsonV>::empty() =~= base); }
            while j < rs.len()
                invariant
                    rs@ == p.repo_results@,
                    j <= rs@.len(),
                    jvs(results@) == base + policy_results(*p, rs@.take(j as int)),
                decreases rs@.len() - j,
            {
                proof {
                    assert(rs@.take(j + 1).drop_last() =~= rs@.take(j as int));
                    assert(rs@.take(j + 1).last() == rs@[j as int]);
                }
                let rr = &rs[j];
                let text: Option<&str> = match &rr.outcome {
                    RepoOutcome::Fail { detail, .. } => Some(detail.as_str()),
                    RepoOutcome::Error { message } => Some(message.as_str()),
                    _ => None,
                };
                match text {
                    Some(t) => {
                        let ghost before = results@;
                        results.push(result_json(p, rr.repo_name.as_str(), t));
                        proof {
                            lemma_jvs(results@);
                            lemma_jvs(before);
                            assert(jvs(results@) =~= jvs(before).push(jvs(results@).last()));
                        }
                    },
                    None => {},
                }
                j = j + 1;
            }
            proof {
                assert(rs@.take(rs@.len() as int) =~= rs@);
                assert(ps@.take(i + 1).drop_last() =~= ps@.take(i as int));
                assert(ps@.take(i + 1).last() == ps@[i as int]);
            }
            i = i + 1;
        }
        proof {
            assert(ps@.take(ps@.len() as int) =~= ps@);
            assert(rv.take(ps@.len() as int) =~= rv);
        }
        let rules_json = Json::Array(rules);
        let results_json = Json::Array(results);
        let ghost (rj, sj) = (jv(rules_json), jv(results_json));
        let name = text_json("multipush");
        let version = text_json("0.4.0");
        let ghost (nv, vv) = (jv(name), jv(version));
        let driver_entries = vec![entry("name", name), entry("version", version), entry("rules", rules_json)];
        proof {
            lemma_jes(driver_entries@);
            assert(jes(driver_entries@) =~= seq![("name"@, nv), ("version"@, vv), ("rules"@, rj)]);
        }
        let tool = single_json("driver", Json::Object(driver_entries));
        let ghost tv = jv(tool);
        let run_entries = vec![entry("tool", tool), entry("results", results_json)];
        proof {
            lemma_jes(run_entries@);
            assert(jes(run_entries@) =~= seq![("tool"@, tv), ("results"@, sj)]);
        }
        let run = Json::Object(run_entries);
        let ghost runv = jv(run);
        let runs = vec![run];
        proof {
            lemma_jvs(runs@);
            assert(jvs(runs@) =~= seq![runv]);
        }
        let schema = text_json("https://raw.githubusercontent.com/oasis-tcs/sarif-spec/main/sarif-2.1/schema/sarif-schema-2.1.0.json");
        let ver = text_json("2.1.0");
        let runs_json = Json::Array(runs);
        let ghost (a, b, c) = (jv(schema), jv(ver), jv(runs_json));
        let top = vec![entry("$schema", schema), entry("version", ver), entry("runs", runs_json)];
        proof {
            lemma_jes(top@);
            assert(jes(top@) =~= seq![("$schema"@, a), ("version"@, b), ("runs"@, c)]);
        }
        Json::Object(top)
    }
}

} // verus!
