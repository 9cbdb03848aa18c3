//! Which repositories a policy targets: name globs, exclusions, archived repos, then filters.

use vstd::prelude::*;

use crate::config::{FilterConfig, TargetConfig};
use crate::error::CoreError;
use crate::model::Repo;
use crate::text::{concat3, str_eq};

verus! {

/// What `globset::Glob::new` gives for `pattern`: `None` when it parses, else the error's text.
pub uninterp spec fn glob_error(pattern: Seq<char>) -> Option<Seq<char>>;

/// Whether glob `pattern` matches `path`, as `globset` decides.
pub uninterp spec fn glob_matches(pattern: Seq<char>, path: Seq<char>) -> bool;

/// What `globset::GlobSet::new` (which `GlobSetBuilder::build` calls) gives for a set of globs
/// that all parse: `None` when the set builds, else the error's text (a glob's matcher may
/// exceed the crate's size limit).
pub uninterp spec fn glob_set_error(patterns: Seq<Seq<char>>) -> Option<Seq<char>>;

/// Parses `pattern` with `globset::Glob::new`; `None` when it parses, else the error's text.
/// Trusted: the answer is the crate's for this pattern.
#[verifier::external_body]
fn glob_parse_error(pattern: &str) -> (r: Option<String>)
    ensures
        match r {
            Some(e) => glob_error(pattern@) == Some(e@),
            None => glob_error(pattern@) is None,
        },
{
    match globset::Glob::new(pattern) {
        Ok(_) => None,
        Err(e) => Some(e.to_string()),
    }
}

/// Builds a `globset::GlobSet` of the parsed globs of `patterns` with `GlobSet::new`; `None`
/// when it builds, else the error's text; an empty set always builds. Trusted: the answer is
/// the crate's. `GlobSet::new` unwraps the Aho-Corasick automata it builds for literal
/// prefixes and suffixes, which fail once a state, transition, dense-table or match index
/// passes 2^31 - 2. With `B` literal bytes (at most four per character) and `P` globs there
/// are at most `B + 4` states, `B + 520` sparse transitions, `257` dense entries per state and
/// `1 + P` matches per state; `glob_set_fits` keeps all of these below that limit.
#[verifier::external_body]
fn glob_set_build_error(patterns: &Vec<String>) -> (r: Option<String>)
    requires
        forall|k: int| 0 <= k < patterns@.len() ==> glob_error(#[trigger] patterns.deep_view()[k]) is None,
        glob_set_fits(patterns.deep_view()),
    ensures
        match r {
            Some(e) => glob_set_error(patterns.deep_view()) == Some(e@),
            None => glob_set_error(patterns.deep_view()) is None,
        },
        patterns@.len() == 0 ==> r is None,
{
    match globset::GlobSet::new(patterns.iter().map(|p| globset::Glob::new(p).unwrap())) {
        Ok(_) => None,
        Err(e) => Some(e.to_string()),
    }
}

/// `globset::GlobSet::is_match` of the set `GlobSet::new` builds from `patterns`: true when
/// some glob of the set matches `path`, as the crate documents. Trusted: for globs that parse
/// and a set that builds.
#[verifier::external_body]
fn glob_set_is_match(patterns: &Vec<String>, path: &str) -> (b: bool)
    requires
        forall|k: int| 0 <= k < patterns@.len() ==> glob_error(#[trigger] patterns.deep_view()[k]) is None,
        glob_set_fits(patterns.deep_view()),
        glob_set_error(patterns.deep_view()) is None,
    ensures
        b == (exists|i: int| 0 <= i < patterns@.len() && glob_matches(#[trigger] patterns.deep_view()[i], path@)),
{
    globset::GlobSet::new(patterns.iter().map(|p| globset::Glob::new(p).unwrap())).unwrap().is_match(path)
}

/// The budget that bounds the size of one glob set (see [`glob_set_fits`]).
pub const GLOB_SET_BUDGET: u128 = 0x1000_0000;

/// A set of globs small enough that building it cannot run out of automaton ids:
/// `(characters + 1) * (globs + 257)` stays below 2^28 (see [`glob_set_build_error`]).
pub open spec fn glob_set_fits(ps: Seq<Seq<char>>) -> bool {
    (glob_chars(ps) + 1) * (ps.len() + 257) < GLOB_SET_BUDGET
}

/// The number of characters of all the patterns together.
pub open spec fn glob_chars(ps: Seq<Seq<char>>) -> nat
    decreases ps.len(),
{
    if ps.len() == 0 {
        0
    } else {
        glob_chars(ps.drop_last()) + ps.last().len()
    }
}

/// The first pattern, at or after `i`, that does not parse, with its error.
pub open spec fn first_bad_glob(ps: Seq<Seq<char>>, i: int) -> Option<(Seq<char>, Seq<char>)>
    decreases ps.len() - i,
{
    if i < 0 || i >= ps.len() {
        None
    } else {
        match glob_error(ps[i]) {
            Some(e) => Some((ps[i], e)),
            None => first_bad_glob(ps, i + 1),
        }
    }
}

/// Some pattern matches `path`.
pub open spec fn any_glob_matches(ps: Seq<Seq<char>>, path: Seq<char>) -> bool {
    exists|i: int| 0 <= i < ps.len() && glob_matches(ps[i], path)
}

/// A repository passes the name globs, the exclusions and the archived rule.
pub open spec fn basic_admits(t: TargetConfig, r: Repo) -> bool {
    &&& any_glob_matches(t.repos.deep_view(), r.full_name@)
    &&& !any_glob_matches(t.exclude.deep_view(), r.full_name@)
    &&& !(t.exclude_archived && r.archived)
}

/// The repositories that pass the basic targeting, in order.
pub open spec fn basic_selection(t: TargetConfig, rs: Seq<Repo>) -> Seq<Repo>
    decreases rs.len(),
{
    if rs.len() == 0 {
        Seq::empty()
    } else {
        let rest = basic_selection(t, rs.drop_last());
        if basic_admits(t, rs.last()) { rest.push(rs.last()) } else { rest }
    }
}

fn check_globs(ps: &Vec<String>) -> (r: Option<(usize, String)>)
    ensures
        match r {
            Some((i, e)) => i < ps@.len() && first_bad_glob(ps.deep_view(), 0) == Some((ps@[i as int]@, e@)),
            None => first_bad_glob(ps.deep_view(), 0) is None,
        },
{
    let mut i: usize = 0;
    while i < ps.len()
        invariant
            i <= ps@.len(),
            first_bad_glob(ps.deep_view(), 0) == first_bad_glob(ps.deep_view(), i as int),
        decreases ps@.len() - i,
    {
        if let Some(e) = glob_parse_error(ps[i].as_str()) {
            return Some((i, e));
        }
        i = i + 1;
    }
    None
}

proof fn lemma_no_bad_glob(ps: Seq<Seq<char>>, i: int)
    requires
        0 <= i <= ps.len(),
        first_bad_glob(ps, i) is None,
    ensures
        forall|k: int| i <= k < ps.len() ==> glob_error(#[trigger] ps[k]) is None,
    decreases ps.len() - i,
{
    if i < ps.len() {
        lemma_no_bad_glob(ps, i + 1);
    }
}

/// Apply name globs, exclusions and `exclude_archived` to `repos`, keeping their order.
/// A pattern that does not parse, or a set of them that does not build, is a configuration
/// error (includes are checked first).
pub fn filter_repos_basic(repos: &Vec<Repo>, targets: &TargetConfig) -> (r: Result<Vec<Repo>, CoreError>)
    requires
        glob_set_fits(targets.repos.deep_view()),
        glob_set_fits(targets.exclude.deep_view()),
    ensures
        match first_bad_glob(targets.repos.deep_view(), 0) {
            Some((p, e)) => r matches Err(CoreError::Config(m)) && m@ == "invalid include glob '"@ + p + "': "@ + e,
            None => match glob_set_error(targets.repos.deep_view()) {
                Some(e) => r matches Err(CoreError::Config(m)) && m@ == "failed to build include set: "@ + e,
                None => match first_bad_glob(targets.exclude.deep_view(), 0) {
                    Some((p, e)) => r matches Err(CoreError::Config(m)) && m@ == "invalid exclude glob '"@ + p + "': "@ + e,
                    None => match glob_set_error(targets.exclude.deep_view()) {
                        Some(e) => r matches Err(CoreError::Config(m)) && m@ == "failed to build exclude set: "@ + e,
                        None => r matches Ok(v) && v@.len() == basic_selection(*targets, repos@).len() && forall|k: int|
                            0 <= k < v@.len() ==> (#[trigger] v@[k]).same(basic_selection(*targets, repos@)[k]),
                    },
                },
            },
        },
{
    if let Some((i, e)) = check_globs(&targets.repos) {
        let mut m = concat3("invalid include glob '", targets.repos[i].as_str(), "': ");
        m.append(e.as_str());
        return Err(CoreError::Config(m));
    }
    proof { lemma_no_bad_glob(targets.repos.deep_view(), 0); }
    if let Some(e) = glob_set_build_error(&targets.repos) {
        let mut m = "failed to build include set: ".to_owned();
        m.append(e.as_str());
        return Err(CoreError::Config(m));
    }
    if let Some((i, e)) = check_globs(&targets.exclude) {
        let mut m = concat3("invalid exclude glob '", targets.exclude[i].as_str(), "': ");
        m.append(e.as_str());
        return Err(CoreError::Config(m));
    }
    proof { lemma_no_bad_glob(targets.exclude.deep_view(), 0); }
    if let Some(e) = glob_set_build_error(&targets.exclude) {
        let mut m = "failed to build exclude set: ".to_owned();
        m.append(e.as_str());
        return Err(CoreError::Config(m));
    }
    let mut out: Vec<Repo> = Vec::new();
    for i in 0..repos.len()
        invariant
            forall|k: int| 0 <= k < targets.repos@.len() ==> glob_error(#[trigger] targets.repos.deep_view()[k]) is None,
            forall|k: int| 0 <= k < targets.exclude@.len() ==> glob_error(#[trigger] targets.exclude.deep_view()[k]) is None,
            glob_set_fits(targets.repos.deep_view()),
            glob_set_fits(targets.exclude.deep_view()),
            glob_set_error(targets.repos.deep_view()) is None,
            glob_set_error(targets.exclude.deep_view()) is None,
            out@.len() == basic_selection(*targets, repos@.take(i as int)).len(),
            forall|k: int| 0 <= k < out@.len() ==> (#[trigger] out@[k]).same(basic_selection(*targets, repos@.take(i as int))[k]),
    {
        proof { assert(repos@.take(i + 1).drop_last() =~= repos@.take(i as int)); }
        let r = &repos[i];
        let admitted = glob_set_is_match(&targets.repos, r.full_name.as_str())
            && !glob_set_is_match(&targets.exclude, r.full_name.as_str())
            && !(targets.exclude_archived && r.archived);
        if admitted {
            out.push(r.clone());
        }
    }
    proof { assert(repos@.take(repos@.len() as int) =~= repos@); }
    Ok(out)
}

/// The repository's value for custom property `key` is `value`.
pub open spec fn has_property(r: Repo, key: Seq<char>, value: Seq<char>) -> bool {
    exists|i: int| 0 <= i < r.custom_properties@.len() && (#[trigger] r.custom_properties@[i]).key@ == key
        && r.custom_properties@[i].value@ == value
}

/// What filtering a repository needs next.
#[derive(Debug, Clone, Copy, PartialEq, Eq, Structural)]
pub enum FilterStep {
    /// Whether the file named by filter number `.0` exists is needed.
    NeedFile(usize),
    /// A filter excludes the repository.
    Rejected,
    /// Every filter admits the repository.
    Accepted,
}

/// Whether `path` is known to exist, per the answers gathered so far.
pub open spec fn known_file(known: Seq<(Seq<char>, bool)>, path: Seq<char>) -> Option<bool>
    decreases known.len(),
{
    if known.len() == 0 {
        None
    } else if known.last().0 == path {
        Some(known.last().1)
    } else {
        known_file(known.drop_last(), path)
    }
}

/// The next step for filters `i..` of a repository, given the file answers known so far:
/// filters are applied in order, and the first one that excludes the repository or needs an
/// unknown file decides.
pub open spec fn filter_outcome(r: Repo, fs: Seq<FilterConfig>, known: Seq<(Seq<char>, bool)>, i: int) -> FilterStep
    decreases fs.len() - i,
{
    if i < 0 || i >= fs.len() {
        FilterStep::Accepted
    } else {
        match fs[i] {
            FilterConfig::HasFile(path) => match known_file(known, path@) {
                None => FilterStep::NeedFile(i as usize),
                Some(false) => FilterStep::Rejected,
                Some(true) => filter_outcome(r, fs, known, i + 1),
            },
            FilterConfig::Topic(topic) => if r.topics.deep_view().contains(topic@) {
                filter_outcome(r, fs, known, i + 1)
            } else {
                FilterStep::Rejected
            },
            FilterConfig::Visibility(v) => if r.visibility == v {
                filter_outcome(r, fs, known, i + 1)
            } else {
                FilterStep::Rejected
            },
            FilterConfig::CustomProperty(p) => if has_property(r, p.key@, p.value@) != p.negate {
                filter_outcome(r, fs, known, i + 1)
            } else {
                FilterStep::Rejected
            },
        }
    }
}

/// Filter `f` admits repository `r`, given the file answers known so far: the named file is
/// known to exist, the repository has the topic, has the visibility, or has (or, negated, has
/// not) the custom property value.
pub open spec fn filter_admits(r: Repo, f: FilterConfig, known: Seq<(Seq<char>, bool)>) -> bool {
    match f {
        FilterConfig::HasFile(path) => known_file(known, path@) == Some(true),
        FilterConfig::Topic(topic) => r.topics.deep_view().contains(topic@),
        FilterConfig::Visibility(v) => r.visibility == v,
        FilterConfig::CustomProperty(p) => has_property(r, p.key@, p.value@) != p.negate,
    }
}

/// What the first filter that does not admit the repository, at position `j`, decides: the
/// answer for its file when that is not known yet, otherwise a rejection.
pub open spec fn blocked_by(f: FilterConfig, known: Seq<(Seq<char>, bool)>, j: int) -> FilterStep {
    match f {
        FilterConfig::HasFile(path) => if known_file(known, path@) is None {
            FilterStep::NeedFile(j as usize)
        } else {
            FilterStep::Rejected
        },
        _ => FilterStep::Rejected,
    }
}

proof fn lemma_filter_outcome_from(r: Repo, fs: Seq<FilterConfig>, known: Seq<(Seq<char>, bool)>, i: int)
    requires
        0 <= i <= fs.len(),
    ensures
        (filter_outcome(r, fs, known, i) == FilterStep::Accepted) == (forall|j: int|
            i <= j < fs.len() ==> filter_admits(r, #[trigger] fs[j], known)),
        forall|j: int|
            i <= j < fs.len() && (forall|k: int| i <= k < j ==> filter_admits(r, #[trigger] fs[k], known))
                && !filter_admits(r, #[trigger] fs[j], known) ==> filter_outcome(r, fs, known, i) == blocked_by(fs[j], known, j),
    decreases fs.len() - i,
{
    if i < fs.len() {
        lemma_filter_outcome_from(r, fs, known, i + 1);
        assert forall|j: int|
            i <= j < fs.len() && (forall|k: int| i <= k < j ==> filter_admits(r, #[trigger] fs[k], known))
                && !filter_admits(r, #[trigger] fs[j], known) implies filter_outcome(r, fs, known, i) == blocked_by(fs[j], known, j) by {
            if j > i {
                assert(filter_admits(r, fs[i], known));
            }
        }
        if filter_outcome(r, fs, known, i) == FilterStep::Accepted {
            assert forall|j: int| i <= j < fs.len() implies filter_admits(r, #[trigger] fs[j], known) by {
                if j == i {
                    if !filter_admits(r, fs[i], known) {
                        assert(filter_outcome(r, fs, known, i) == blocked_by(fs[i], known, i));
                    }
                }
            }
        }
        if forall|j: int| i <= j < fs.len() ==> filter_admits(r, #[trigger] fs[j], known) {
            assert(filter_admits(r, fs[i], known));
            assert forall|j: int| i + 1 <= j < fs.len() implies filter_admits(r, #[trigger] fs[j], known) by {}
        }
    }
}

/// Filters are applied in order: a repository is accepted exactly when every filter admits it
/// (its file known to exist, its topic, visibility and custom property as asked); the first
/// filter that does not admit it rejects it (a repository whose visibility differs from a
/// visibility filter's is never targeted), unless it names a file whose answer is not known
/// yet, which is then asked for.
pub proof fn law_filters_decide_in_order(r: Repo, fs: Seq<FilterConfig>, known: Seq<(Seq<char>, bool)>)
    ensures
        (filter_outcome(r, fs, known, 0) == FilterStep::Accepted) == (forall|j: int|
            0 <= j < fs.len() ==> filter_admits(r, #[trigger] fs[j], known)),
        forall|j: int|
            0 <= j < fs.len() && (forall|k: int| 0 <= k < j ==> filter_admits(r, #[trigger] fs[k], known))
                && !filter_admits(r, #[trigger] fs[j], known) ==> filter_outcome(r, fs, known, 0) == blocked_by(fs[j], known, j),
{
    lemma_filter_outcome_from(r, fs, known, 0);
}

fn lookup_known(known: &Vec<(String, bool)>, path: &str) -> (r: Option<bool>)
    ensures
        r == known_file(known@.map_values(|e: (String, bool)| (e.0@, e.1)), path@),
{
    let ghost kv = known@.map_values(|e: (String, bool)| (e.0@, e.1));
    let mut i = known.len();
    proof { assert(kv.take(i as int) =~= kv); }
    while i > 0
        invariant
            i <= known@.len(),
            kv == known@.map_values(|e: (String, bool)| (e.0@, e.1)),
            known_file(kv, path@) == known_file(kv.take(i as int), path@),
        decreases i,
    {
        proof { assert(kv.take(i as int).drop_last() =~= kv.take(i - 1)); }
        if str_eq(known[i - 1].0.as_str(), path) {
            return Some(known[i - 1].1);
        }
        i = i - 1;
    }
    None
}

fn has_topic(r: &Repo, topic: &str) -> (b: bool)
    ensures
        b == r.topics.deep_view().contains(topic@),
{
    for i in 0..r.topics.len()
        invariant
            forall|k: int| 0 <= k < i ==> r.topics.deep_view()[k] != topic@,
    {
        if str_eq(r.topics[i].as_str(), topic) {
            proof { assert(r.topics.deep_view()[i as int] == topic@); }
            return true;
        }
    }
    false
}

fn has_property_exec(r: &Repo, key: &str, value: &str) -> (b: bool)
    ensures
        b == has_property(*r, key@, value@),
{
    for i in 0..r.custom_properties.len()
        invariant
            forall|k: int| 0 <= k < i ==> !((#[trigger] r.custom_properties@[k]).key@ == key@
                && r.custom_properties@[k].value@ == value@),
    {
        let p = &r.custom_properties[i];
        if str_eq(p.key.as_str(), key) && str_eq(p.value.as_str(), value) {
            return true;
        }
    }
    false
}

/// Decide what filtering `repo` needs next: the index of a `has_file` filter whose answer is
/// not yet in `known` (path, exists), a rejection, or acceptance. `has_file` answers are asked
/// for one at a time and only when every earlier filter admitted the repository.
pub fn filter_step(repo: &Repo, filters: &Vec<FilterConfig>, known: &Vec<(String, bool)>) -> (s: FilterStep)
    ensures
        s == filter_outcome(*repo, filters@, known@.map_values(|e: (String, bool)| (e.0@, e.1)), 0),
        s matches FilterStep::NeedFile(i) ==> i < filters@.len() && filters@[i as int] is HasFile,
{
    let ghost kv = known@.map_values(|e: (String, bool)| (e.0@, e.1));
    let mut i: usize = 0;
    while i < filters.len()
        invariant
            i <= filters@.len(),
            kv == known@.map_values(|e: (String, bool)| (e.0@, e.1)),
            filter_outcome(*repo, filters@, kv, 0) == filter_outcome(*repo, filters@, kv, i as int),
        decreases filters@.len() - i,
    {
        match &filters[i] {
            FilterConfig::HasFile(path) => match lookup_known(known, path.as_str()) {
                None => return FilterStep::NeedFile(i),
                Some(false) => return FilterStep::Rejected,
                Some(true) => {},
            },
            FilterConfig::Topic(topic) => if !has_topic(repo, topic.as_str()) {
                return FilterStep::Rejected;
            },
            FilterConfig::Visibility(v) => if repo.visibility != *v {
                return FilterStep::Rejected;
            },
            FilterConfig::CustomProperty(p) => if has_property_exec(repo, p.key.as_str(), p.value.as_str()) == p.negate {
                return FilterStep::Rejected;
            },
        }
        i = i + 1;
    }
    FilterStep::Accepted
}


/// Targeting only removes repositories: every selected one passes the name globs, matches no
/// exclusion and is not an excluded archive, and the selection keeps the listing's order.
pub proof fn law_selection_admits(t: TargetConfig, rs: Seq<Repo>)
    ensures
        basic_selection(t, rs).len() <= rs.len(),
        forall|k: int| 0 <= k < basic_selection(t, rs).len() ==> basic_admits(t, #[trigger] basic_selection(t, rs)[k]),
        forall|k: int| 0 <= k < basic_selection(t, rs).len() ==> rs.contains(#[trigger] basic_selection(t, rs)[k]),
    decreases rs.len(),
{
    if rs.len() > 0 {
        law_selection_admits(t, rs.drop_last());
        let rest = basic_selection(t, rs.drop_last());
        assert forall|k: int| 0 <= k < basic_selection(t, rs).len() implies rs.contains(#[trigger] basic_selection(t, rs)[k]) by {
            if k < rest.len() {
                let x = rest[k];
                assert(rs.drop_last().contains(x));
                let j = choose|j: int| 0 <= j < rs.drop_last().len() && rs.drop_last()[j] == x;
                assert(rs[j] == x);
            } else {
                assert(rs[rs.len() - 1] == rs.last());
            }
        }
    }
}

} // verus!
