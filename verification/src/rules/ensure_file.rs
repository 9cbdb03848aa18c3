//! `ensure_file`: a file exists at one of the candidate paths, optionally with required content.

use vstd::prelude::*;
use vstd::string::*;

use crate::config::EnsureFileConfig;
use crate::error::CoreError;
use crate::pattern::{regex_compile_error, regex_error, regex_finds, regex_is_match};
use crate::policy_source::opt_view;
use crate::rule::{delivers, one_file_fix, single_file_remediation, Rule, RuleResult, Judgement};
use crate::text::{contains, debug_str, join, join_strings, str_contains, str_debug, str_eq};

verus! {

/// Checks that a file exists at one of the configured paths, with the configured content.
pub struct EnsureFileRule {
    config: EnsureFileConfig,
}

/// A fetched candidate: its path and, when the file exists, its content.
pub open spec fn fetched_view(f: Seq<(String, Option<String>)>) -> Seq<(Seq<char>, Option<Seq<char>>)> {
    f.map_values(|e: (String, Option<String>)| (e.0@, opt_view(e.1)))
}

/// The candidates that exist, as `(path, content)`, in priority order.
pub open spec fn present_files(f: Seq<(Seq<char>, Option<Seq<char>>)>) -> Seq<(Seq<char>, Seq<char>)>
    decreases f.len(),
{
    if f.len() == 0 {
        Seq::empty()
    } else {
        let rest = present_files(f.drop_last());
        match f.last().1 {
            Some(c) => rest.push((f.last().0, c)),
            None => rest,
        }
    }
}

/// The first position at or after `i` whose content satisfies `p`.
pub open spec fn first_where(ex: Seq<(Seq<char>, Seq<char>)>, p: spec_fn(Seq<char>) -> bool, i: int) -> Option<int>
    decreases ex.len() - i,
{
    if i < 0 || i >= ex.len() {
        None
    } else if p(ex[i].1) {
        Some(i)
    } else {
        first_where(ex, p, i + 1)
    }
}

/// Content equal to `e`.
pub open spec fn equal_to(e: Seq<char>) -> spec_fn(Seq<char>) -> bool {
    |c: Seq<char>| c == e
}

/// Content containing `needle`.
pub open spec fn containing(needle: Seq<char>) -> spec_fn(Seq<char>) -> bool {
    |c: Seq<char>| contains(c, needle)
}

/// Content in which `pattern` finds a match.
pub open spec fn matched_by(pattern: Seq<char>) -> spec_fn(Seq<char>) -> bool {
    |c: Seq<char>| regex_finds(pattern, c)
}

/// The judgement of `ensure_file` for a config and the fetched candidates.
pub open spec fn ensure_file_judgement(cfg: EnsureFileConfig, fetched: Seq<(Seq<char>, Option<Seq<char>>)>) -> Judgement {
    let paths = cfg.spec_candidate_paths();
    let ex = present_files(fetched);
    let canonical = if paths.len() > 0 { paths[0] } else { "CODEOWNERS"@ };
    if ex.len() == 0 {
        let detail = if paths.len() == 1 {
            "File "@ + paths[0] + " does not exist"@
        } else {
            "No file found at any of: "@ + join(paths, ", "@)
        };
        Judgement::Fail(detail, match cfg.spec_creation_body() {
            Some(body) => Some(one_file_fix("Create file "@ + canonical, canonical, Some(body), "Create file "@ + canonical)),
            None => None,
        })
    } else {
        let top = ex[0].0;
        match cfg.must_equal {
            Some(expected) => match first_where(ex, equal_to(expected@), 0) {
                Some(i) => Judgement::Pass("File "@ + ex[i].0 + " matches required content"@),
                None => Judgement::Fail(
                    "File "@ + top + " content does not match required content"@,
                    Some(one_file_fix(
                        "Update file "@ + top + " to required content"@,
                        top,
                        Some(expected@),
                        "Update file "@ + top + " to match policy"@,
                    )),
                ),
            },
            None => match cfg.must_contain {
                Some(needle) => match first_where(ex, containing(needle@), 0) {
                    Some(i) => Judgement::Pass("File "@ + ex[i].0 + " contains required content"@),
                    None => Judgement::Fail(
                        "File "@ + top + " does not contain required content: "@ + str_debug(needle@),
                        None,
                    ),
                },
                None => match cfg.must_match {
                    Some(pattern) => match regex_error(pattern@) {
                        Some(e) => Judgement::Error("invalid must_match regex: "@ + e),
                        None => match first_where(ex, matched_by(pattern@), 0) {
                            Some(i) => Judgement::Pass("File "@ + ex[i].0 + " matches required pattern"@),
                            None => Judgement::Fail(
                                "File "@ + top + " does not match required pattern: /"@ + pattern@ + "/"@,
                                None,
                            ),
                        },
                    },
                    None => Judgement::Pass("File "@ + top + " exists"@),
                },
            },
        }
    }
}

/// The description of `ensure_file` for its candidate paths.
pub open spec fn ensure_file_description(paths: Seq<Seq<char>>) -> Seq<char> {
    if paths.len() == 1 {
        "Ensure file "@ + paths[0] + " exists"@
    } else {
        "Ensure a file exists at one of: "@ + join(paths, ", "@)
    }
}

/// Existing candidates as character sequences.
pub open spec fn pairs_view(v: Seq<(&str, &str)>) -> Seq<(Seq<char>, Seq<char>)> {
    v.map_values(|e: (&str, &str)| (e.0@, e.1@))
}

fn existing_files<'a>(fetched: &'a Vec<(String, Option<String>)>) -> (ex: Vec<(&'a str, &'a str)>)
    ensures
        pairs_view(ex@) == present_files(fetched_view(fetched@)),
{
    let mut ex: Vec<(&'a str, &'a str)> = Vec::new();
    for i in 0..fetched.len()
        invariant
            pairs_view(ex@) == present_files(fetched_view(fetched@).take(i as int)),
    {
        let ghost f = fetched_view(fetched@);
        proof {
            assert(f.take(i + 1).drop_last() =~= f.take(i as int));
        }
        match &fetched[i].1 {
            Some(c) => {
                ex.push((fetched[i].0.as_str(), c.as_str()));
                proof {
                    assert(pairs_view(ex@) =~= present_files(f.take(i as int)).push((f[i as int].0, f[i as int].1->0)));
                }
            },
            None => {},
        }
    }
    proof {
        assert(fetched_view(fetched@).take(fetched@.len() as int) =~= fetched_view(fetched@));
    }
    ex
}

fn first_equal(ex: &Vec<(&str, &str)>, expected: &str) -> (r: Option<usize>)
    ensures
        match r {
            Some(i) => i < ex@.len() && first_where(pairs_view(ex@), equal_to(expected@), 0) == Some(i as int),
            None => first_where(pairs_view(ex@), equal_to(expected@), 0) is None,
        },
{
    let ghost p = equal_to(expected@);
    let ghost v = pairs_view(ex@);
    let mut i: usize = 0;
    while i < ex.len()
        invariant
            v == pairs_view(ex@),
            p == equal_to(expected@),
            i <= ex@.len(),
            first_where(v, p, 0) == first_where(v, p, i as int),
        decreases ex@.len() - i,
    {
        proof { assert(v[i as int].1 == ex@[i as int].1@); }
        if str_eq(ex[i].1, expected) {
            return Some(i);
        }
        i = i + 1;
    }
    None
}

fn first_containing(ex: &Vec<(&str, &str)>, needle: &str) -> (r: Option<usize>)
    ensures
        match r {
            Some(i) => i < ex@.len() && first_where(pairs_view(ex@), containing(needle@), 0) == Some(i as int),
            None => first_where(pairs_view(ex@), containing(needle@), 0) is None,
        },
{
    let ghost p = containing(needle@);
    let ghost v = pairs_view(ex@);
    let mut i: usize = 0;
    while i < ex.len()
        invariant
            v == pairs_view(ex@),
            p == containing(needle@),
            i <= ex@.len(),
            first_where(v, p, 0) == first_where(v, p, i as int),
        decreases ex@.len() - i,
    {
        proof { assert(v[i as int].1 == ex@[i as int].1@); }
        if str_contains(ex[i].1, needle) {
            return Some(i);
        }
        i = i + 1;
    }
    None
}

fn first_matching(ex: &Vec<(&str, &str)>, pattern: &str) -> (r: Option<usize>)
    requires
        regex_error(pattern@) is None,
    ensures
        match r {
            Some(i) => i < ex@.len() && first_where(pairs_view(ex@), matched_by(pattern@), 0) == Some(i as int),
            None => first_where(pairs_view(ex@), matched_by(pattern@), 0) is None,
        },
{
    let ghost p = matched_by(pattern@);
    let ghost v = pairs_view(ex@);
    let mut i: usize = 0;
    while i < ex.len()
        invariant
            v == pairs_view(ex@),
            p == matched_by(pattern@),
            i <= ex@.len(),
            regex_error(pattern@) is None,
            first_where(v, p, 0) == first_where(v, p, i as int),
        decreases ex@.len() - i,
    {
        proof { assert(v[i as int].1 == ex@[i as int].1@); }
        if regex_is_match(pattern, ex[i].1) {
            return Some(i);
        }
        i = i + 1;
    }
    None
}

fn file_message(head: &str, path: &str, tail: &str) -> (s: String)
    ensures
        s@ == head@ + path@ + tail@,
{
    let mut s = String::new();
    s.append(head);
    s.append(path);
    s.append(tail);
    s
}

impl EnsureFileRule {
    pub fn new(config: EnsureFileConfig) -> (r: Self)
        ensures
            r.spec_config() == config,
    {
        EnsureFileRule { config }
    }

    /// The configuration this rule checks.
    pub closed spec fn spec_config(&self) -> EnsureFileConfig {
        self.config
    }

    /// Judge the repository from the fetched candidates: each candidate path, in the order of
    /// [`EnsureFileConfig::candidate_paths`], with its content when the file exists.
    /// An `Err` reports a `must_match` pattern that does not compile.
    pub fn judge(&self, fetched: &Vec<(String, Option<String>)>) -> (r: Result<RuleResult, CoreError>)
        ensures
            delivers(r, "ensure_file"@, ensure_file_judgement(self.spec_config(), fetched_view(fetched@))),
    {
        let paths = self.config.candidate_paths();
        let ex = existing_files(fetched);
        proof {
            reveal_strlit("CODEOWNERS");
        }
        let canonical: String = if paths.len() > 0 { paths[0].clone() } else { "CODEOWNERS".to_owned() };
        if ex.len() == 0 {
            let detail = if paths.len() == 1 {
                file_message("File ", paths[0].as_str(), " does not exist")
            } else {
                let mut d = String::new();
                d.append("No file found at any of: ");
                let joined = join_strings(&paths, ", ");
                d.append(joined.as_str());
                d
            };
            let remediation = match self.config.creation_body() {
                Some(body) => {
                    let text = file_message("Create file ", canonical.as_str(), "");
                    proof { reveal_strlit(""); }
                    Some(single_file_remediation("ensure_file", text.clone(), canonical.clone(), Some(body), text))
                },
                None => None,
            };
            proof {
                reveal_strlit("");
                assert(ensure_file_judgement(self.spec_config(), fetched_view(fetched@)) == Judgement::Fail(detail@, match self.config.spec_creation_body() {
                    Some(body) => Some(one_file_fix("Create file "@ + canonical@, canonical@, Some(body), "Create file "@ + canonical@)),
                    None => None,
                }));
            }
            return Ok(RuleResult::Fail { detail, remediation });
        }
        let top: &str = ex[0].0;
        if let Some(expected) = &self.config.must_equal {
            match first_equal(&ex, expected.as_str()) {
                Some(i) => {
                    let detail = file_message("File ", ex[i].0, " matches required content");
                    Ok(RuleResult::Pass { detail })
                },
                None => {
                    let detail = file_message("File ", top, " content does not match required content");
                    let description = file_message("Update file ", top, " to required content");
                    let message = file_message("Update file ", top, " to match policy");
                    let fix = single_file_remediation("ensure_file", description, top.to_owned(), Some(expected.clone()), message);
                    Ok(RuleResult::Fail { detail, remediation: Some(fix) })
                },
            }
        } else if let Some(needle) = &self.config.must_contain {
            match first_containing(&ex, needle.as_str()) {
                Some(i) => {
                    let detail = file_message("File ", ex[i].0, " contains required content");
                    Ok(RuleResult::Pass { detail })
                },
                None => {
                    let mut detail = file_message("File ", top, " does not contain required content: ");
                    let quoted = debug_str(needle.as_str());
                    detail.append(quoted.as_str());
                    Ok(RuleResult::Fail { detail, remediation: None })
                },
            }
        } else if let Some(pattern) = &self.config.must_match {
            match regex_compile_error(pattern.as_str()) {
                Some(e) => {
                    let mut msg = String::new();
                    msg.append("invalid must_match regex: ");
                    msg.append(e.as_str());
                    Err(CoreError::RuleEvaluation(msg))
                },
                None => match first_matching(&ex, pattern.as_str()) {
                    Some(i) => {
                        let detail = file_message("File ", ex[i].0, " matches required pattern");
                        Ok(RuleResult::Pass { detail })
                    },
                    None => {
                        let mut detail = file_message("File ", top, " does not match required pattern: /");
                        detail.append(pattern.as_str());
                        detail.append("/");
                        Ok(RuleResult::Fail { detail, remediation: None })
                    },
                },
            }
        } else {
            let detail = file_message("File ", top, " exists");
            Ok(RuleResult::Pass { detail })
        }
    }
}

impl Rule for EnsureFileRule {
    fn rule_type(&self) -> (s: &str)
        ensures
            s@ == "ensure_file"@,
    {
        "ensure_file"
    }

    fn description(&self) -> (s: String)
        ensures
            s@ == ensure_file_description(self.spec_config().spec_candidate_paths()),
    {
        let paths = self.config.candidate_paths();
        if paths.len() == 1 {
            file_message("Ensure file ", paths[0].as_str(), " exists")
        } else {
            let mut s = String::new();
            s.append("Ensure a file exists at one of: ");
            let joined = join_strings(&paths, ", ");
            s.append(joined.as_str());
            s
        }
    }
}

/// Without a content predicate, a file that exists at any candidate path passes whatever it
/// holds: `default_content` only seeds creation and is never enforced on an existing file.
pub proof fn law_existing_file_passes_without_predicate(cfg: EnsureFileConfig, fetched: Seq<(Seq<char>, Option<Seq<char>>)>)
    requires
        cfg.must_equal is None,
        cfg.must_contain is None,
        cfg.must_match is None,
        present_files(fetched).len() > 0,
    ensures
        ensure_file_judgement(cfg, fetched) is Pass,
{
}

} // verus!
