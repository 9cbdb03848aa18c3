//! `file_matches`: a file's content matches a regular expression.

use vstd::prelude::*;

use crate::config::FileMatchesConfig;
use crate::error::CoreError;
use crate::pattern::{regex_compile_error, regex_error, regex_finds, regex_is_match};
use crate::rule::{yields, Rule, RuleResult, Judgement};
use crate::text::concat3;

verus! {

/// Checks that a file exists and its content matches the configured pattern, which is known
/// to compile.
pub struct FileMatchesRule {
    config: FileMatchesConfig,
}

/// The judgement of `file_matches` for `path` and `pattern`, given the file's content if it exists.
pub open spec fn file_matches_judgement(path: Seq<char>, pattern: Seq<char>, content: Option<Seq<char>>) -> Judgement {
    match content {
        None => Judgement::Fail("File "@ + path + " does not exist"@, None),
        Some(c) => if regex_finds(pattern, c) {
            Judgement::Pass("File "@ + path + " matches pattern `"@ + pattern + "`"@)
        } else {
            Judgement::Fail("File "@ + path + " does not match pattern `"@ + pattern + "`"@, None)
        },
    }
}

impl FileMatchesRule {
    #[verifier::type_invariant]
    spec fn pattern_compiles(self) -> bool {
        regex_error(self.config.pattern@) is None
    }

    /// The configuration this rule checks.
    pub closed spec fn spec_config(&self) -> FileMatchesConfig {
        self.config
    }

    /// Build the rule, rejecting a pattern that does not compile.
    pub fn new(config: FileMatchesConfig) -> (r: Result<Self, CoreError>)
        ensures
            match r {
                Ok(rule) => rule.spec_config() == config && regex_error(config.pattern@) is None,
                Err(CoreError::Config(msg)) => regex_error(config.pattern@) matches Some(e)
                    && msg@ == "Invalid regex pattern `"@ + config.pattern@ + "`: "@ + e,
                Err(_) => false,
            },
    {
        match regex_compile_error(config.pattern.as_str()) {
            Some(e) => {
                let mut msg = concat3("Invalid regex pattern `", config.pattern.as_str(), "`: ");
                msg.append(e.as_str());
                Err(CoreError::Config(msg))
            },
            None => Ok(FileMatchesRule { config }),
        }
    }

    /// Judge the repository from the file's content on its default branch (`None`: no file).
    pub fn judge(&self, content: Option<&str>) -> (r: RuleResult)
        ensures
            yields(r, "file_matches"@, file_matches_judgement(
                self.spec_config().path@,
                self.spec_config().pattern@,
                match content { Some(c) => Some(c@), None => None },
            )),
    {
        proof { use_type_invariant(self); }
        let path = self.config.path.as_str();
        let pattern = self.config.pattern.as_str();
        match content {
            None => RuleResult::Fail { detail: concat3("File ", path, " does not exist"), remediation: None },
            Some(c) => if regex_is_match(pattern, c) {
                let mut detail = concat3("File ", path, " matches pattern `");
                detail.append(pattern);
                detail.append("`");
                RuleResult::Pass { detail }
            } else {
                let mut detail = concat3("File ", path, " does not match pattern `");
                detail.append(pattern);
                detail.append("`");
                RuleResult::Fail { detail, remediation: None }
            },
        }
    }
}

impl Rule for FileMatchesRule {
    fn rule_type(&self) -> (s: &str)
        ensures
            s@ == "file_matches"@,
    {
        "file_matches"
    }

    fn description(&self) -> (s: String)
        ensures
            s@ == "Ensure "@ + self.spec_config().path@ + " matches pattern `"@ + self.spec_config().pattern@ + "`"@,
    {
        let mut s = concat3("Ensure ", self.config.path.as_str(), " matches pattern `");
        s.append(self.config.pattern.as_str());
        s.append("`");
        s
    }
}

} // verus!
