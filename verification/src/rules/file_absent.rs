//! `file_absent`: a file must not exist; its deletion is the remediation.

use vstd::prelude::*;

use crate::config::FileAbsentConfig;
use crate::rule::{one_file_fix, single_file_remediation, yields, Rule, RuleResult, Judgement};
use crate::text::concat3;

verus! {

/// Checks that a file does not exist.
pub struct FileAbsentRule {
    config: FileAbsentConfig,
}

/// The judgement of `file_absent` on `path`, given whether the file exists.
pub open spec fn file_absent_judgement(path: Seq<char>, exists: bool) -> Judgement {
    if exists {
        Judgement::Fail(
            "File "@ + path + " exists but should be absent"@,
            Some(one_file_fix("Delete file "@ + path, path, None, "Delete file "@ + path)),
        )
    } else {
        Judgement::Pass("File "@ + path + " does not exist"@)
    }
}

impl FileAbsentRule {
    pub fn new(config: FileAbsentConfig) -> (r: Self)
        ensures
            r.spec_config() == config,
    {
        FileAbsentRule { config }
    }

    /// The configuration this rule checks.
    pub closed spec fn spec_config(&self) -> FileAbsentConfig {
        self.config
    }

    /// Judge the repository from whether the file exists on its default branch.
    pub fn judge(&self, exists: bool) -> (r: RuleResult)
        ensures
            yields(r, "file_absent"@, file_absent_judgement(self.spec_config().path@, exists)),
    {
        let path = self.config.path.as_str();
        proof { reveal_strlit(""); }
        if exists {
            let text = concat3("Delete file ", path, "");
            let fix = single_file_remediation("file_absent", text.clone(), path.to_owned(), None, text);
            RuleResult::Fail { detail: concat3("File ", path, " exists but should be absent"), remediation: Some(fix) }
        } else {
            RuleResult::Pass { detail: concat3("File ", path, " does not exist") }
        }
    }
}

impl Rule for FileAbsentRule {
    fn rule_type(&self) -> (s: &str)
        ensures
            s@ == "file_absent"@,
    {
        "file_absent"
    }

    fn description(&self) -> (s: String)
        ensures
            s@ == "Ensure file "@ + self.spec_config().path@ + " does not exist"@,
    {
        concat3("Ensure file ", self.config.path.as_str(), " does not exist")
    }
}

} // verus!
