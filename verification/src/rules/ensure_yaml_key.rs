//! `ensure_yaml_key`: a key (a dot-separated path) must exist in a YAML file, optionally with
//! an expected value; in enforce mode the fix stores the expected value there.

use vstd::prelude::*;

use crate::config::{EnsureYamlKeyConfig, JsonKeyMode};
use crate::json::{clone_json, jv, Json, JsonV};
use crate::rule::{one_file_fix, single_file_remediation, yields, Judgement, Rule, RuleResult};
use crate::rules::key_path::{get_by_path, get_path, json_eq, json_equal, law_get_after_set, lemma_split_nonempty, set_by_path, set_path, split_dots};

verus! {

/// Checks a key of a YAML file.
pub struct EnsureYamlKeyRule {
    config: EnsureYamlKeyConfig,
}

/// Where a check of the file stands: concluded, or failed with a fixed document that must be
/// written out as YAML before the fix can be offered.
pub enum YamlKeyFinding {
    Done(Judgement),
    Render(Seq<char>, JsonV),
}

/// The document the fix would write: in enforce mode with an expected value, `root` with the
/// value stored at the key, when that can be done.
pub open spec fn fixed_document(c: EnsureYamlKeyConfig, root: JsonV) -> Option<JsonV> {
    if c.mode == JsonKeyMode::Enforce {
        match c.value {
            Some(v) => set_path(root, split_dots(c.key@), jv(v)),
            None => None,
        }
    } else {
        None
    }
}

/// A failure with `detail`, offering the fix for `root` when there is one.
pub open spec fn failing(c: EnsureYamlKeyConfig, detail: Seq<char>, root: JsonV) -> YamlKeyFinding {
    match fixed_document(c, root) {
        Some(f) => YamlKeyFinding::Render(detail, f),
        None => YamlKeyFinding::Done(Judgement::Fail(detail, None)),
    }
}

/// What the rule finds for the file: `None` when it does not exist, otherwise the parsed
/// document or the parser's message.
pub open spec fn yaml_key_finding(c: EnsureYamlKeyConfig, file: Option<Result<JsonV, Seq<char>>>) -> YamlKeyFinding {
    let path = c.path@;
    let key = c.key@;
    match file {
        None => failing(c, "File "@ + path + " does not exist"@, JsonV::Object(Seq::empty())),
        Some(Err(e)) => YamlKeyFinding::Done(Judgement::Fail("File "@ + path + " is not valid YAML: "@ + e, None)),
        Some(Ok(root)) => match get_path(root, split_dots(key)) {
            None => failing(c, "Key `"@ + key + "` not found in "@ + path, root),
            Some(actual) => match c.value {
                None => YamlKeyFinding::Done(Judgement::Pass("Key `"@ + key + "` exists in "@ + path)),
                Some(expected) => if json_eq(actual, jv(expected)) {
                    YamlKeyFinding::Done(Judgement::Pass("Key `"@ + key + "` in "@ + path + " has expected value"@))
                } else {
                    failing(c, "Key `"@ + key + "` in "@ + path + " has unexpected value"@, root)
                },
            },
        },
    }
}

/// The fix's description, also its commit message.
pub open spec fn fix_message(c: EnsureYamlKeyConfig) -> Seq<char> {
    "Set key `"@ + c.key@ + "` in "@ + c.path@ + " to expected value"@
}

/// The characters of a parse outcome.
pub open spec fn parsed_view(file: Option<Result<Json, String>>) -> Option<Result<JsonV, Seq<char>>> {
    match file {
        None => None,
        Some(Ok(j)) => Some(Ok(jv(j))),
        Some(Err(e)) => Some(Err(e@)),
    }
}

/// The next step of the rule: a result, or a fixed document to write out as YAML.
pub enum YamlKeyStep {
    Done(RuleResult),
    Render { detail: String, fixed: Json },
}

impl EnsureYamlKeyRule {
    pub fn new(config: EnsureYamlKeyConfig) -> (r: Self)
        ensures
            r.spec_config() == config,
    {
        EnsureYamlKeyRule { config }
    }

    /// The configuration this rule checks.
    pub closed spec fn spec_config(&self) -> EnsureYamlKeyConfig {
        self.config
    }

    fn build_remediation(&self, detail: String, root: Json) -> (s: YamlKeyStep)
        ensures
            match failing(self.spec_config(), detail@, jv(root)) {
                YamlKeyFinding::Done(j) => s matches YamlKeyStep::Done(r) && yields(r, "ensure_yaml_key"@, j),
                YamlKeyFinding::Render(d, f) => s matches YamlKeyStep::Render { detail, fixed } && detail@ == d && jv(fixed) == f,
            },
    {
        if self.config.mode == JsonKeyMode::Enforce {
            match &self.config.value {
                Some(v) => {
                    let mut fixed = root;
                    let value = clone_json(v);
                    if set_by_path(&mut fixed, self.config.key.as_str(), value) {
                        return YamlKeyStep::Render { detail, fixed };
                    }
                },
                None => {},
            }
        }
        YamlKeyStep::Done(RuleResult::Fail { detail, remediation: None })
    }

    /// Examine the file: `None` when it does not exist on the default branch, otherwise its
    /// content parsed as YAML (or the parser's message).
    pub fn examine(&self, file: Option<Result<Json, String>>) -> (s: YamlKeyStep)
        ensures
            match yaml_key_finding(self.spec_config(), parsed_view(file)) {
                YamlKeyFinding::Done(j) => s matches YamlKeyStep::Done(r) && yields(r, "ensure_yaml_key"@, j),
                YamlKeyFinding::Render(d, f) => s matches YamlKeyStep::Render { detail, fixed } && detail@ == d && jv(fixed) == f,
            },
    {
        let path = self.config.path.as_str();
        let key = self.config.key.as_str();
        match file {
            None => {
                let mut detail = "File ".to_owned();
                detail.append(path);
                detail.append(" does not exist");
                let empty = Json::Object(Vec::new());
                proof { assert(jv(empty) =~= JsonV::Object(Seq::empty())); }
                self.build_remediation(detail, empty)
            },
            Some(Err(e)) => {
                let mut detail = "File ".to_owned();
                detail.append(path);
                detail.append(" is not valid YAML: ");
                detail.append(e.as_str());
                YamlKeyStep::Done(RuleResult::Fail { detail, remediation: None })
            },
            Some(Ok(root)) => {
                let found: Option<bool> = match get_by_path(&root, key) {
                    None => None,
                    Some(actual) => match &self.config.value {
                        None => Some(true),
                        Some(expected) => Some(json_equal(actual, expected)),
                    },
                };
                match found {
                    None => {
                        let mut detail = "Key `".to_owned();
                        detail.append(key);
                        detail.append("` not found in ");
                        detail.append(path);
                        self.build_remediation(detail, root)
                    },
                    Some(true) => {
                        let mut detail = "Key `".to_owned();
                        detail.append(key);
                        if self.config.value.is_none() {
                            detail.append("` exists in ");
                            detail.append(path);
                        } else {
                            detail.append("` in ");
                            detail.append(path);
                            detail.append(" has expected value");
                        }
                        YamlKeyStep::Done(RuleResult::Pass { detail })
                    },
                    Some(false) => {
                        let mut detail = "Key `".to_owned();
                        detail.append(key);
                        detail.append("` in ");
                        detail.append(path);
                        detail.append(" has unexpected value");
                        self.build_remediation(detail, root)
                    },
                }
            },
        }
    }

    /// Conclude a failure whose fixed document was written out: with its YAML text, a failure
    /// offering to write that text to the file; without it (writing failed), a failure
    /// without a fix.
    pub fn conclude(&self, detail: String, rendered: Option<String>) -> (r: RuleResult)
        ensures
            yields(r, "ensure_yaml_key"@, Judgement::Fail(detail@, match rendered {
                Some(t) => Some(one_file_fix(fix_message(self.spec_config()), self.spec_config().path@, Some(t@), fix_message(self.spec_config()))),
                None => None,
            })),
    {
        match rendered {
            Some(text) => {
                let mut message = "Set key `".to_owned();
                message.append(self.config.key.as_str());
                message.append("` in ");
                message.append(self.config.path.as_str());
                message.append(" to expected value");
                let fix = single_file_remediation("ensure_yaml_key", message.clone(), self.config.path.clone(), Some(text), message);
                RuleResult::Fail { detail, remediation: Some(fix) }
            },
            None => RuleResult::Fail { detail, remediation: None },
        }
    }
}

impl Rule for EnsureYamlKeyRule {
    fn rule_type(&self) -> (s: &str)
        ensures
            s@ == "ensure_yaml_key"@,
    {
        "ensure_yaml_key"
    }

    fn description(&self) -> (s: String)
        ensures
            s@ == "Ensure key `"@ + self.spec_config().key@ + "` in "@ + self.spec_config().path@,
    {
        let mut s = "Ensure key `".to_owned();
        s.append(self.config.key.as_str());
        s.append("` in ");
        s.append(self.config.path.as_str());
        s
    }
}

/// The fixed document a failure offers holds the expected value at the key.
pub proof fn law_fix_holds_expected_value(c: EnsureYamlKeyConfig, file: Option<Result<JsonV, Seq<char>>>)
    ensures
        yaml_key_finding(c, file) matches YamlKeyFinding::Render(_, f) ==> c.value is Some
            && get_path(f, split_dots(c.key@)) == Some(jv(c.value->0)),
{
    lemma_split_nonempty(c.key@);
    if c.mode == JsonKeyMode::Enforce && c.value is Some {
        let v = jv(c.value->0);
        let segs = split_dots(c.key@);
        let empty = JsonV::Object(Seq::<(Seq<char>, JsonV)>::empty());
        if set_path(empty, segs, v) is Some {
            law_get_after_set(empty, segs, v);
        }
        match file {
            Some(Ok(root)) => {
                if set_path(root, segs, v) is Some {
                    law_get_after_set(root, segs, v);
                }
            },
            _ => {},
        }
    }
}

} // verus!
