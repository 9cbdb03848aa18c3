//! `ensure_autolink`: the repository has an autolink reference for a key prefix, pointing at the
//! wanted URL template.

use vstd::prelude::*;

use crate::config::EnsureAutolinkConfig;
use crate::model::Autolink;
use crate::rule::{yields, AttributedRemediation, FixView, Remediation, Rule, RuleResult, Judgement};
use crate::text::{bool_str, bool_text, concat3, str_eq};

verus! {

/// Checks that the configured autolink is in place.
pub struct EnsureAutolinkRule {
    config: EnsureAutolinkConfig,
}

/// The position of the first existing link with the configured prefix, at or after `i`.
pub open spec fn first_with_prefix(links: Seq<Autolink>, prefix: Seq<char>, i: int) -> Option<int>
    decreases links.len() - i,
{
    if i < 0 || i >= links.len() {
        None
    } else if links[i].key_prefix@ == prefix {
        Some(i)
    } else {
        first_with_prefix(links, prefix, i + 1)
    }
}

/// The judgement of `ensure_autolink` for a config and the repository's existing links.
pub open spec fn autolink_judgement(c: EnsureAutolinkConfig, links: Seq<Autolink>) -> Judgement {
    let p = c.key_prefix@;
    let u = c.url_template@;
    let want = FixView::Autolink { description: Seq::empty(), key_prefix: p, url_template: u, is_alphanumeric: c.is_alphanumeric };
    if exists|i: int| 0 <= i < links.len() && links[i].key_prefix@ == p && links[i].url_template@ == u
        && links[i].is_alphanumeric == c.is_alphanumeric {
        Judgement::Pass("Autolink '"@ + p + "' is configured"@)
    } else {
        match first_with_prefix(links, p, 0) {
            Some(i) => Judgement::Fail(
                "Autolink '"@ + p + "' targets '"@ + links[i].url_template@ + "' (is_alphanumeric: "@
                    + bool_text(links[i].is_alphanumeric) + "), expected '"@ + u + "' (is_alphanumeric: "@
                    + bool_text(c.is_alphanumeric) + ")"@,
                Some(FixView::Autolink {
                    description: "Update autolink '"@ + p + "' to target '"@ + u + "'"@,
                    key_prefix: p,
                    url_template: u,
                    is_alphanumeric: c.is_alphanumeric,
                }),
            ),
            None => Judgement::Fail(
                "Autolink '"@ + p + "' is not configured"@,
                Some(FixView::Autolink {
                    description: "Create autolink '"@ + p + "' targeting '"@ + u + "'"@,
                    key_prefix: p,
                    url_template: u,
                    is_alphanumeric: c.is_alphanumeric,
                }),
            ),
        }
    }
}


fn find_prefix(links: &Vec<Autolink>, prefix: &str) -> (r: Option<usize>)
    ensures
        match r {
            Some(i) => i < links@.len() && first_with_prefix(links@, prefix@, 0) == Some(i as int),
            None => first_with_prefix(links@, prefix@, 0) is None,
        },
{
    let mut k: usize = 0;
    while k < links.len()
        invariant
            k <= links@.len(),
            first_with_prefix(links@, prefix@, 0) == first_with_prefix(links@, prefix@, k as int),
        decreases links@.len() - k,
    {
        if str_eq(links[k].key_prefix.as_str(), prefix) {
            return Some(k);
        }
        k = k + 1;
    }
    None
}

impl EnsureAutolinkRule {
    pub fn new(config: EnsureAutolinkConfig) -> (r: Self)
        ensures
            r.spec_config() == config,
    {
        EnsureAutolinkRule { config }
    }

    /// The configuration this rule checks.
    pub closed spec fn spec_config(&self) -> EnsureAutolinkConfig {
        self.config
    }

    /// Judge the repository from its existing autolinks.
    pub fn judge(&self, existing: &Vec<Autolink>) -> (r: RuleResult)
        ensures
            yields(r, "ensure_autolink"@, autolink_judgement(self.spec_config(), existing@)),
    {
        let spec = self.config.to_spec();
        let c = &self.config;
        let mut i: usize = 0;
        while i < existing.len()
            invariant
                i <= existing@.len(),
                *c == self.config,
                spec.key_prefix == c.key_prefix,
                spec.url_template == c.url_template,
                spec.is_alphanumeric == c.is_alphanumeric,
                forall|j: int| 0 <= j < i ==> !existing@[j].spec_matches(spec),
            decreases existing@.len() - i,
        {
            if existing[i].matches(&spec) {
                proof {
                    let l = existing@[i as int];
                    assert(0 <= i < existing@.len() && l.key_prefix@ == c.key_prefix@ && l.url_template@ == c.url_template@
                        && l.is_alphanumeric == c.is_alphanumeric);
                }
                return RuleResult::Pass { detail: concat3("Autolink '", c.key_prefix.as_str(), "' is configured") };
            }
            i = i + 1;
        }
        let ghost p = c.key_prefix@;
        proof {
            assert(!(exists|i: int| 0 <= i < existing@.len() && existing@[i].key_prefix@ == p
                && existing@[i].url_template@ == c.url_template@ && existing@[i].is_alphanumeric == c.is_alphanumeric)) by {
                assert forall|k: int| 0 <= k < existing@.len() implies !(existing@[k].key_prefix@ == p
                    && existing@[k].url_template@ == c.url_template@ && existing@[k].is_alphanumeric == c.is_alphanumeric) by {
                    assert(!existing@[k].spec_matches(spec));
                }
            }
        }
        let found = find_prefix(existing, c.key_prefix.as_str());
        let (detail, description) = match found {
            Some(j) => {
                let cur = &existing[j];
                let mut d = concat3("Autolink '", c.key_prefix.as_str(), "' targets '");
                d.append(cur.url_template.as_str());
                d.append("' (is_alphanumeric: ");
                d.append(bool_str(cur.is_alphanumeric));
                d.append("), expected '");
                d.append(c.url_template.as_str());
                d.append("' (is_alphanumeric: ");
                d.append(bool_str(c.is_alphanumeric));
                d.append(")");
                let mut desc = concat3("Update autolink '", c.key_prefix.as_str(), "' to target '");
                desc.append(c.url_template.as_str());
                desc.append("'");
                (d, desc)
            },
            None => {
                let d = concat3("Autolink '", c.key_prefix.as_str(), "' is not configured");
                let mut desc = concat3("Create autolink '", c.key_prefix.as_str(), "' targeting '");
                desc.append(c.url_template.as_str());
                desc.append("'");
                (d, desc)
            },
        };
        let fix = AttributedRemediation::new("ensure_autolink", Remediation::Autolink { description, spec });
        RuleResult::Fail { detail, remediation: Some(fix) }
    }
}

impl Rule for EnsureAutolinkRule {
    fn rule_type(&self) -> (s: &str)
        ensures
            s@ == "ensure_autolink"@,
    {
        "ensure_autolink"
    }

    fn description(&self) -> (s: String)
        ensures
            s@ == "Ensure autolink '"@ + self.spec_config().key_prefix@ + "' -> '"@ + self.spec_config().url_template@ + "'"@,
    {
        let mut s = concat3("Ensure autolink '", self.config.key_prefix.as_str(), "' -> '");
        s.append(self.config.url_template.as_str());
        s.append("'");
        s
    }
}

} // verus!
