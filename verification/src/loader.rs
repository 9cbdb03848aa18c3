//! Checks on a loaded configuration, and the "did you mean" hint for a misspelt rule type.

use vstd::prelude::*;
use vstd::string::*;

use crate::config::{EnsureFileConfig, PolicyConfig, RootConfig, RuleDefinition};
use crate::error::CoreError;
use crate::pattern::{group, group_at, groups_view, regex_capture_first_group, regex_captures_all, regex_compile_error, regex_error, regex_first_group, regex_matches, regex_pieces, regex_split};
use crate::recipe::{lookup, lookup_value, pairs_view};
use crate::text::{chars_of, concat3, dec, insert_name, join, join_strings, sorted_names, usize_to_string};

verus! {

/// The smallest of three numbers.
pub open spec fn min3(a: nat, b: nat, c: nat) -> nat {
    let m = if a <= b { a } else { b };
    if m <= c { m } else { c }
}

/// The edit distance between two character sequences: the fewest single-character
/// insertions, deletions and substitutions that turn `a` into `b`.
pub open spec fn lev(a: Seq<char>, b: Seq<char>) -> nat
    decreases a.len() + b.len(),
{
    if a.len() == 0 {
        b.len()
    } else if b.len() == 0 {
        a.len()
    } else {
        min3(
            lev(a.drop_last(), b) + 1,
            lev(a, b.drop_last()) + 1,
            lev(a.drop_last(), b.drop_last()) + (if a.last() == b.last() { 0nat } else { 1nat }),
        )
    }
}

proof fn lemma_lev_bound(a: Seq<char>, b: Seq<char>)
    ensures
        lev(a, b) <= if a.len() >= b.len() { a.len() } else { b.len() },
    decreases a.len() + b.len(),
{
    if a.len() > 0 && b.len() > 0 {
        lemma_lev_bound(a.drop_last(), b.drop_last());
    }
}

proof fn lemma_encode_len_ge(s: Seq<char>)
    ensures
        vstd::utf8::encode_utf8(s).len() >= s.len(),
    decreases s.len(),
{
    if s.len() > 0 {
        lemma_encode_len_ge(s.drop_first());
    }
}

/// The distance as the suggestion logic computes it, over rows as wide as `b` has bytes of
/// which only as many entries as `b` has characters are filled in: the edit distance `lev`
/// when `b` has as many bytes as characters (as ASCII text has); otherwise the last entry of
/// the final row, never filled in: `b`'s byte length after an even number of characters of `a`,
/// and 0 after an odd number.
pub open spec fn row_distance(a: Seq<char>, b: Seq<char>, b_bytes: nat) -> nat {
    if b_bytes == b.len() {
        lev(a, b)
    } else if a.len() % 2 == 0 {
        b_bytes
    } else {
        0
    }
}

/// The Levenshtein distance between `a` and `b`, by rows indexed by `b`'s byte length and
/// filled for each of its characters (see [`row_distance`]).
pub fn levenshtein(a: &str, b: &str) -> (d: usize)
    requires
        b.spec_bytes().len() < usize::MAX,
    ensures
        d == row_distance(a@, b@, b.spec_bytes().len()),
{
    let av = chars_of(a);
    let bv = chars_of(b);
    let b_len = b.len();
    let m = bv.len();
    proof { lemma_encode_len_ge(b@); }
    assert(m <= b_len);
    let mut prev: Vec<usize> = Vec::new();
    for j in 0..b_len + 1
        invariant
            prev@.len() == j,
            forall|k: int| 0 <= k < j ==> prev@[k] == k,
    {
        prev.push(j);
    }
    let mut curr: Vec<usize> = Vec::new();
    for j in 0..b_len + 1
        invariant
            curr@.len() == j,
            forall|k: int| 0 <= k < j ==> curr@[k] == 0,
    {
        curr.push(0);
    }
    proof {
        assert forall|k: int| 0 <= k <= m implies prev@[k] == lev(a@.take(0), b@.take(k)) by {
            assert(a@.take(0).len() == 0);
        }
    }
    for i in 0..av.len()
        invariant
            av@ == a@,
            bv@ == b@,
            m == b@.len(),
            m <= b_len,
            b_len < usize::MAX,
            prev@.len() == b_len + 1,
            curr@.len() == b_len + 1,
            forall|k: int| 0 <= k <= m ==> prev@[k] == lev(a@.take(i as int), #[trigger] b@.take(k)),
            forall|k: int| m < k <= b_len ==> #[trigger] prev@[k] == if i % 2 == 0 { k } else { 0 },
            forall|k: int| m < k <= b_len ==> #[trigger] curr@[k] == if i % 2 == 0 { 0 } else { k },
    {
        let ghost ai = a@.take(i as int);
        let ghost ai1 = a@.take(i + 1);
        proof {
            assert(ai1.drop_last() =~= ai);
            assert(ai1.last() == a@[i as int]);
        }
        curr.set(0, i + 1);
        proof {
            assert(b@.take(0).len() == 0);
            assert(curr@[0] == lev(ai1, b@.take(0)));
        }
        let ca = av[i];
        for j in 0..m
            invariant
                av@ == a@,
                bv@ == b@,
                m == b@.len(),
                m <= b_len,
                b_len < usize::MAX,
                i < a@.len(),
                i < usize::MAX,
                ca == a@[i as int],
                ai == a@.take(i as int),
                ai1 == a@.take(i + 1),
                ai1.drop_last() == ai,
                ai1.last() == a@[i as int],
                prev@.len() == b_len + 1,
                curr@.len() == b_len + 1,
                forall|k: int| 0 <= k <= m ==> prev@[k] == lev(ai, #[trigger] b@.take(k)),
                forall|k: int| 0 <= k <= j ==> curr@[k] == lev(ai1, #[trigger] b@.take(k)),
                forall|k: int| m < k <= b_len ==> #[trigger] prev@[k] == if i % 2 == 0 { k } else { 0 },
                forall|k: int| m < k <= b_len ==> #[trigger] curr@[k] == if i % 2 == 0 { 0 } else { k },
        {
            let ghost bj1 = b@.take(j + 1);
            proof {
                assert(bj1.drop_last() =~= b@.take(j as int));
                assert(bj1.last() == b@[j as int]);
                assert(ai.len() == i);
                assert(ai1.len() == i + 1);
                lemma_lev_bound(ai, bj1);
                lemma_lev_bound(ai, b@.take(j as int));
                lemma_lev_bound(ai1, b@.take(j as int));
                lemma_lev_bound(ai1, bj1);
                assert(prev@[j + 1] == lev(ai, bj1));
                assert(curr@[j as int] == lev(ai1, b@.take(j as int)));
                assert(prev@[j as int] == lev(ai, b@.take(j as int)));
            }
            let cost: usize = if ca == bv[j] { 0 } else { 1 };
            let up = prev[j + 1];
            let left = curr[j];
            let sub = prev[j] + cost;
            let mut best = if up <= left { up + 1 } else { left + 1 };
            if sub < best {
                best = sub;
            }
            curr.set(j + 1, best);
            proof {
                assert(curr@[j + 1] == lev(ai1, bj1));
            }
        }
        std::mem::swap(&mut prev, &mut curr);
    }
    proof {
        assert(a@.take(av@.len() as int) =~= a@);
        assert(b@.take(m as int) =~= b@);
    }
    prev[b_len]
}

/// The rule types a misspelling is compared against, in order.
pub open spec fn known_rule_types() -> Seq<Seq<char>> {
    seq!["ensure_file"@, "ensure_json_key"@, "ensure_yaml_key"@, "file_matches"@]
}

/// The closest of the first `n` known rule types to `unknown`, as `(position, distance)`:
/// the first within three edits, replaced only by a strictly closer one.
pub open spec fn closest_known(unknown: Seq<char>, n: int) -> Option<(int, nat)>
    decreases n,
{
    if n <= 0 {
        None
    } else {
        let prev = closest_known(unknown, n - 1);
        let d = lev(unknown, known_rule_types()[n - 1]);
        match prev {
            Some((bi, bd)) => if d < bd { Some((n - 1, d)) } else { prev },
            None => if d <= 3 { Some((n - 1, d)) } else { None },
        }
    }
}

/// The "did you mean" hint for `unknown`, naming the closest known rule type.
pub open spec fn suggestion_for(unknown: Seq<char>) -> Option<Seq<char>> {
    match closest_known(unknown, 4) {
        Some((i, _)) => Some("Did you mean '!"@ + known_rule_types()[i] + "'?"@),
        None => None,
    }
}

proof fn lemma_closest_known(unknown: Seq<char>, n: int)
    requires
        0 <= n <= 4,
    ensures
        match closest_known(unknown, n) {
            None => forall|j: int| 0 <= j < n ==> lev(unknown, #[trigger] known_rule_types()[j]) > 3,
            Some((bi, bd)) => {
                &&& 0 <= bi < n
                &&& bd == lev(unknown, known_rule_types()[bi])
                &&& bd <= 3
                &&& forall|j: int| 0 <= j < n ==> lev(unknown, #[trigger] known_rule_types()[j]) >= bd
                &&& forall|j: int| 0 <= j < bi ==> lev(unknown, #[trigger] known_rule_types()[j]) > bd
            },
        },
    decreases n,
{
    if n > 0 {
        lemma_closest_known(unknown, n - 1);
    }
}

/// A suggestion names the known rule type closest to the misspelling (the first of equally
/// close ones), and is offered exactly when one lies within three edits.
pub proof fn law_suggestion_is_closest(unknown: Seq<char>)
    ensures
        suggestion_for(unknown) is None <==> forall|j: int| 0 <= j < known_rule_types().len() ==> lev(unknown, #[trigger] known_rule_types()[j]) > 3,
        suggestion_for(unknown) is Some ==> exists|i: int| {
            &&& 0 <= i < known_rule_types().len()
            &&& suggestion_for(unknown) == Some("Did you mean '!"@ + known_rule_types()[i] + "'?"@)
            &&& lev(unknown, known_rule_types()[i]) <= 3
            &&& forall|j: int| 0 <= j < known_rule_types().len() ==> lev(unknown, #[trigger] known_rule_types()[j]) >= lev(unknown, known_rule_types()[i])
            &&& forall|j: int| 0 <= j < i ==> lev(unknown, #[trigger] known_rule_types()[j]) > lev(unknown, known_rule_types()[i])
        },
{
    lemma_closest_known(unknown, 4);
    assert(known_rule_types().len() == 4);
    match closest_known(unknown, 4) {
        Some((bi, bd)) => {
            assert(lev(unknown, known_rule_types()[bi]) <= 3);
        },
        None => {},
    }
}

fn known_rule_type(i: usize) -> (s: &'static str)
    requires
        i < 4,
    ensures
        s@ == known_rule_types()[i as int],
{
    if i == 0 {
        "ensure_file"
    } else if i == 1 {
        "ensure_json_key"
    } else if i == 2 {
        "ensure_yaml_key"
    } else {
        "file_matches"
    }
}

/// A "did you mean" hint for an unknown rule type, naming the closest known type when it is
/// within three edits.
pub fn suggest_rule_type(unknown: &str) -> (r: Option<String>)
    ensures
        match r {
            Some(s) => suggestion_for(unknown@) == Some(s@),
            None => suggestion_for(unknown@) is None,
        },
{
    let mut best: Option<(usize, usize)> = None;
    for i in 0..4
        invariant
            match best {
                None => closest_known(unknown@, i as int) is None,
                Some((bi, bd)) => closest_known(unknown@, i as int) == Some((bi as int, bd as nat)) && bi < 4,
            },
    {
        let k = known_rule_type(i);
        proof {
            reveal_strlit("ensure_file");
            reveal_strlit("ensure_json_key");
            reveal_strlit("ensure_yaml_key");
            reveal_strlit("file_matches");
            assert(k@.len() < 100);
            assert(vstd::utf8::is_ascii_chars(k@));
            vstd::utf8::is_ascii_chars_encode_utf8(k@);
        }
        let dist = levenshtein(unknown, k);
        match best {
            Some((_, d)) => {
                if dist < d {
                    best = Some((i, dist));
                }
            },
            None => {
                if dist <= 3 {
                    best = Some((i, dist));
                }
            },
        }
    }
    match best {
        Some((bi, _)) => Some(concat3("Did you mean '!", known_rule_type(bi), "'?")),
        None => None,
    }
}

/// The pattern that picks the offending name out of an unknown-variant error.
pub open spec fn unknown_variant_pattern() -> Seq<char> {
    "unknown variant `([^`]+)`"@
}

/// The message with a "did you mean" hint appended when it reports an unknown variant
/// close to a known rule type.
pub open spec fn enhanced_message(msg: Seq<char>) -> Seq<char> {
    if regex_error(unknown_variant_pattern()) is None {
        match regex_first_group(unknown_variant_pattern(), msg) {
            Some(unknown) => match suggestion_for(unknown) {
                Some(s) => msg + ". "@ + s,
                None => msg,
            },
            None => msg,
        }
    } else {
        msg
    }
}

/// Append a rule-type suggestion to a deserialization error that names an unknown variant.
pub fn enhance_deser_error(msg: &str) -> (r: String)
    ensures
        r@ == enhanced_message(msg@),
{
    let pattern = "unknown variant `([^`]+)`";
    if regex_compile_error(pattern).is_some() {
        return msg.to_owned();
    }
    match regex_capture_first_group(pattern, msg) {
        Some(unknown) => match suggest_rule_type(unknown.as_str()) {
            Some(s) => concat3(msg, ". ", s.as_str()),
            None => msg.to_owned(),
        },
        None => msg.to_owned(),
    }
}

/// How many content predicates (`must_contain`, `must_match`, `must_equal`) an ensure-file
/// rule sets.
pub open spec fn predicate_count(cfg: EnsureFileConfig) -> nat {
    (if cfg.must_contain is Some { 1nat } else { 0nat }) + (if cfg.must_match is Some { 1nat } else { 0nat })
        + (if cfg.must_equal is Some { 1nat } else { 0nat })
}

/// The problems with one rule of a policy, `ctx` naming its place.
pub open spec fn rule_problems(rule: RuleDefinition, ctx: Seq<char>) -> Seq<Seq<char>> {
    match rule {
        RuleDefinition::EnsureFile(cfg) => {
            let ps = cfg.spec_candidate_paths();
            (if ps.len() == 0 || exists|i: int| 0 <= i < ps.len() && ps[i].len() == 0 {
                seq![ctx + ": ensure_file.path must not be empty"@]
            } else {
                Seq::empty()
            }) + (if predicate_count(cfg) > 1 {
                seq![ctx + ": ensure_file allows at most one of must_contain, must_match, must_equal"@]
            } else {
                Seq::empty()
            }) + (if cfg.default_content is Some && cfg.must_equal is Some {
                seq![ctx + ": ensure_file.default_content and ensure_file.must_equal cannot both be set"@]
            } else {
                Seq::empty()
            })
        },
        RuleDefinition::EnsureJsonKey(cfg) => (if cfg.path@.len() == 0 {
            seq![ctx + ": ensure_json_key.path must not be empty"@]
        } else {
            Seq::empty()
        }) + (if cfg.key@.len() == 0 {
            seq![ctx + ": ensure_json_key.key must not be empty"@]
        } else {
            Seq::empty()
        }),
        RuleDefinition::EnsureYamlKey(cfg) => (if cfg.path@.len() == 0 {
            seq![ctx + ": ensure_yaml_key.path must not be empty"@]
        } else {
            Seq::empty()
        }) + (if cfg.key@.len() == 0 {
            seq![ctx + ": ensure_yaml_key.key must not be empty"@]
        } else {
            Seq::empty()
        }),
        RuleDefinition::FileMatches(cfg) => (if cfg.path@.len() == 0 {
            seq![ctx + ": file_matches.path must not be empty"@]
        } else {
            Seq::empty()
        }) + (if cfg.pattern@.len() == 0 {
            seq![ctx + ": file_matches.pattern must not be empty"@]
        } else {
            match regex_error(cfg.pattern@) {
                Some(e) => seq![ctx + ": file_matches.pattern is invalid regex: "@ + e],
                None => Seq::empty(),
            }
        }),
        RuleDefinition::FileAbsent(cfg) => if cfg.path@.len() == 0 {
            seq![ctx + ": file_absent.path must not be empty"@]
        } else {
            Seq::empty()
        },
        _ => Seq::empty(),
    }
}

/// `policy '<name>', rule <n>`.
pub open spec fn rule_context(policy: Seq<char>, n: nat) -> Seq<char> {
    "policy '"@ + policy + "', rule "@ + dec(n)
}

/// The problems of the rules `0..n` of a policy, in order.
pub open spec fn rules_problems(rules: Seq<RuleDefinition>, policy: Seq<char>, n: int) -> Seq<Seq<char>>
    decreases n,
{
    if n <= 0 {
        Seq::empty()
    } else {
        rules_problems(rules, policy, n - 1) + rule_problems(rules[n - 1], rule_context(policy, n as nat))
    }
}

/// The problems of one policy: no rules, then each rule's.
pub open spec fn policy_problems(p: PolicyConfig) -> Seq<Seq<char>> {
    (if p.rules@.len() == 0 {
        seq!["policy '"@ + p.name@ + "' must have at least one rule"@]
    } else {
        Seq::empty()
    }) + rules_problems(p.rules@, p.name@, p.rules@.len() as int)
}

/// The problems of the policies `0..n`: a repeated name, then the policy's own.
pub open spec fn policies_problems(ps: Seq<PolicyConfig>, n: int) -> Seq<Seq<char>>
    decreases n,
{
    if n <= 0 {
        Seq::empty()
    } else {
        let p = ps[n - 1];
        policies_problems(ps, n - 1) + (if exists|j: int| 0 <= j < n - 1 && ps[j].name@ == p.name@ {
            seq!["duplicate policy name: '"@ + p.name@ + "'"@]
        } else {
            Seq::empty()
        }) + policy_problems(p)
    }
}

/// Every problem with a configuration, in the order they are reported.
pub open spec fn config_problems(c: RootConfig) -> Seq<Seq<char>> {
    (if c.provider.org@.len() == 0 {
        seq!["provider.org must not be empty"@]
    } else {
        Seq::empty()
    }) + (if c.provider.token@.len() == 0 {
        seq!["provider.token must not be empty"@]
    } else {
        Seq::empty()
    }) + (if c.policies@.len() == 0 {
        seq!["at least one policy is required"@]
    } else {
        Seq::empty()
    }) + policies_problems(c.policies@, c.policies@.len() as int)
}

fn push_line(errors: &mut Vec<String>, line: String)
    ensures
        final(errors).deep_view() == old(errors).deep_view().push(line@),
{
    let ghost before = errors.deep_view();
    errors.push(line);
    proof { assert(errors.deep_view() =~= before.push(line@)); }
}

fn all_nonempty(ps: &Vec<String>) -> (b: bool)
    ensures
        b == (ps@.len() > 0 && !(exists|i: int| 0 <= i < ps.deep_view().len() && ps.deep_view()[i].len() == 0)),
{
    if ps.len() == 0 {
        return false;
    }
    for i in 0..ps.len()
        invariant
            forall|k: int| 0 <= k < i ==> ps@[k]@.len() > 0,
    {
        if ps[i].unicode_len() == 0 {
            proof { assert(ps.deep_view()[i as int].len() == 0); }
            return false;
        }
    }
    proof {
        assert forall|k: int| 0 <= k < ps.deep_view().len() implies ps.deep_view()[k].len() != 0 by {
            assert(ps.deep_view()[k] == ps@[k]@);
        }
    }
    true
}

/// Record the problems of one rule of `policy_name`, numbered from zero by `index`.
pub fn validate_rule(rule: &RuleDefinition, policy_name: &str, index: usize, errors: &mut Vec<String>)
    requires
        index < usize::MAX,
    ensures
        final(errors).deep_view() == old(errors).deep_view()
            + rule_problems(*rule, rule_context(policy_name@, (index + 1) as nat)),
{
    let num = usize_to_string(index + 1);
    let ctx = concat3("policy '", policy_name, "', rule ");
    let mut ctx = ctx;
    ctx.append(num.as_str());
    let ghost before = errors.deep_view();
    let ghost c = ctx@;
    proof { assert(c == rule_context(policy_name@, (index + 1) as nat)); }
    match rule {
        RuleDefinition::EnsureFile(cfg) => {
            let ps = cfg.candidate_paths();
            if !all_nonempty(&ps) {
                push_line(errors, concat3(ctx.as_str(), ": ensure_file.path must not be empty", ""));
            }
            let count: usize = (if cfg.must_contain.is_some() { 1 } else { 0 }) + (if cfg.must_match.is_some() { 1 } else { 0 })
                + (if cfg.must_equal.is_some() { 1 } else { 0 });
            if count > 1 {
                push_line(errors, concat3(ctx.as_str(), ": ensure_file allows at most one of must_contain, must_match, must_equal", ""));
            }
            if cfg.default_content.is_some() && cfg.must_equal.is_some() {
                push_line(errors, concat3(ctx.as_str(), ": ensure_file.default_content and ensure_file.must_equal cannot both be set", ""));
            }
        },
        RuleDefinition::EnsureJsonKey(cfg) => {
            if cfg.path.unicode_len() == 0 {
                push_line(errors, concat3(ctx.as_str(), ": ensure_json_key.path must not be empty", ""));
            }
            if cfg.key.unicode_len() == 0 {
                push_line(errors, concat3(ctx.as_str(), ": ensure_json_key.key must not be empty", ""));
            }
        },
        RuleDefinition::EnsureYamlKey(cfg) => {
            if cfg.path.unicode_len() == 0 {
                push_line(errors, concat3(ctx.as_str(), ": ensure_yaml_key.path must not be empty", ""));
            }
            if cfg.key.unicode_len() == 0 {
                push_line(errors, concat3(ctx.as_str(), ": ensure_yaml_key.key must not be empty", ""));
            }
        },
        RuleDefinition::FileMatches(cfg) => {
            if cfg.path.unicode_len() == 0 {
                push_line(errors, concat3(ctx.as_str(), ": file_matches.path must not be empty", ""));
            }
            if cfg.pattern.unicode_len() == 0 {
                push_line(errors, concat3(ctx.as_str(), ": file_matches.pattern must not be empty", ""));
            } else {
                match regex_compile_error(cfg.pattern.as_str()) {
                    Some(e) => push_line(errors, concat3(ctx.as_str(), ": file_matches.pattern is invalid regex: ", e.as_str())),
                    None => {},
                }
            }
        },
        RuleDefinition::FileAbsent(cfg) => {
            if cfg.path.unicode_len() == 0 {
                push_line(errors, concat3(ctx.as_str(), ": file_absent.path must not be empty", ""));
            }
        },
        _ => {},
    }
    proof {
        reveal_strlit("");
        assert(errors.deep_view() =~= before + rule_problems(*rule, c));
    }
}

/// Record the problems of one policy.
pub fn validate_policy(policy: &PolicyConfig, errors: &mut Vec<String>)
    ensures
        final(errors).deep_view() == old(errors).deep_view() + policy_problems(*policy),
{
    let ghost before = errors.deep_view();
    if policy.rules.len() == 0 {
        push_line(errors, concat3("policy '", policy.name.as_str(), "' must have at least one rule"));
    }
    let ghost head = errors.deep_view();
    for i in 0..policy.rules.len()
        invariant
            errors.deep_view() == head + rules_problems(policy.rules@, policy.name@, i as int),
    {
        validate_rule(&policy.rules[i], policy.name.as_str(), i, errors);
        proof {
            assert(errors.deep_view() =~= head + rules_problems(policy.rules@, policy.name@, i + 1));
        }
    }
    proof {
        assert(errors.deep_view() =~= before + policy_problems(*policy));
    }
}

fn name_seen(policies: &Vec<PolicyConfig>, n: usize) -> (b: bool)
    requires
        n < policies@.len(),
    ensures
        b == exists|j: int| 0 <= j < n && policies@[j].name@ == policies@[n as int].name@,
{
    for j in 0..n
        invariant
            n < policies@.len(),
            forall|k: int| 0 <= k < j ==> policies@[k].name@ != policies@[n as int].name@,
    {
        if policies[j].name == policies[n].name {
            return true;
        }
    }
    false
}

/// Check a loaded configuration, reporting every problem at once.
pub fn validate(config: &RootConfig) -> (r: Result<(), CoreError>)
    ensures
        match r {
            Ok(()) => config_problems(*config).len() == 0,
            Err(CoreError::ConfigValidation(errs)) => config_problems(*config).len() > 0
                && errs.deep_view() == config_problems(*config),
            Err(_) => false,
        },
{
    let mut errors: Vec<String> = Vec::new();
    proof { assert(errors.deep_view() =~= Seq::<Seq<char>>::empty()); }
    if config.provider.org.unicode_len() == 0 {
        push_line(&mut errors, "provider.org must not be empty".to_owned());
    }
    if config.provider.token.unicode_len() == 0 {
        push_line(&mut errors, "provider.token must not be empty".to_owned());
    }
    if config.policies.len() == 0 {
        push_line(&mut errors, "at least one policy is required".to_owned());
    }
    let ghost head = errors.deep_view();
    for i in 0..config.policies.len()
        invariant
            errors.deep_view() == head + policies_problems(config.policies@, i as int),
    {
        if name_seen(&config.policies, i) {
            push_line(&mut errors, concat3("duplicate policy name: '", config.policies[i].name.as_str(), "'"));
        }
        validate_policy(&config.policies[i], &mut errors);
        proof {
            assert(errors.deep_view() =~= head + policies_problems(config.policies@, i + 1));
        }
    }
    proof {
        assert(errors.deep_view() =~= config_problems(*config));
    }
    if errors.len() == 0 {
        Ok(())
    } else {
        Err(CoreError::ConfigValidation(errors))
    }
}

/// How configuration files refer to the environment: `${NAME}`, or `${NAME:-default}`.
pub open spec fn env_ref_pattern() -> Seq<char> {
    "\\$\\{([A-Za-z_][A-Za-z0-9_]*)(?::-(.*?))?\\}"@
}

fn env_ref() -> (p: &'static str)
    ensures
        p@ == env_ref_pattern(),
{
    "\\$\\{([A-Za-z_][A-Za-z0-9_]*)(?::-(.*?))?\\}"
}

/// What reference `k` stands for, given the variables that are set (`env`): the variable's
/// value, else the default it gives, else nothing.
pub open spec fn env_replacement(env: Seq<(Seq<char>, Seq<char>)>, ms: Seq<Seq<Option<Seq<char>>>>, k: int) -> Seq<char> {
    match group(ms, k, 1) {
        Some(n) => match lookup(env, n) {
            Some(v) => v,
            None => match group(ms, k, 2) {
                Some(d) => d,
                None => Seq::empty(),
            },
        },
        None => Seq::empty(),
    }
}

/// The variables that the first `n` references name, are not set and give no default, in
/// order of reference.
pub open spec fn missing_vars(env: Seq<(Seq<char>, Seq<char>)>, ms: Seq<Seq<Option<Seq<char>>>>, n: int) -> Seq<Seq<char>>
    decreases n,
{
    if n <= 0 {
        Seq::empty()
    } else {
        missing_vars(env, ms, n - 1) + match group(ms, n - 1, 1) {
            Some(v) => if lookup(env, v) is None && group(ms, n - 1, 2) is None { seq![v] } else { Seq::empty() },
            None => Seq::empty(),
        }
    }
}

/// The text up to the end of piece `k` with each reference replaced.
pub open spec fn env_resolved(pieces: Seq<Seq<char>>, ms: Seq<Seq<Option<Seq<char>>>>, env: Seq<(Seq<char>, Seq<char>)>, k: int) -> Seq<char>
    decreases k,
{
    if k <= 0 {
        pieces[0]
    } else {
        env_resolved(pieces, ms, env, k - 1) + env_replacement(env, ms, k - 1) + pieces[k]
    }
}

/// What resolving the environment references of `input` gives when the variables in `env`
/// are set: the text with each reference replaced, or the message naming every variable that
/// is missing (each once, in ascending order).
pub open spec fn resolve_env_spec(input: Seq<char>, env: Seq<(Seq<char>, Seq<char>)>) -> Result<Seq<char>, Seq<char>> {
    match regex_error(env_ref_pattern()) {
        Some(m) => Err(m),
        None => {
            let pieces = regex_pieces(env_ref_pattern(), input);
            let ms = regex_matches(env_ref_pattern(), input);
            let missing = missing_vars(env, ms, ms.len() as int);
            if missing.len() > 0 {
                Err("missing environment variables: "@ + join(sorted_names(missing), ", "@))
            } else if pieces.len() == 0 {
                Ok(Seq::empty())
            } else {
                Ok(env_resolved(pieces, ms, env, pieces.len() - 1))
            }
        },
    }
}

/// The variables the references of `input` name, in order (a name may repeat).
pub open spec fn env_names(ms: Seq<Seq<Option<Seq<char>>>>, n: int) -> Seq<Seq<char>>
    decreases n,
{
    if n <= 0 {
        Seq::empty()
    } else {
        env_names(ms, n - 1) + match group(ms, n - 1, 1) {
            Some(v) => seq![v],
            None => Seq::empty(),
        }
    }
}

/// The names of the environment variables that `input` refers to, in order; empty when the
/// reference pattern is refused.
pub fn referenced_env_vars(input: &str) -> (r: Vec<String>)
    ensures
        regex_error(env_ref_pattern()) is None ==> r.deep_view() == env_names(
            regex_matches(env_ref_pattern(), input@),
            regex_matches(env_ref_pattern(), input@).len() as int,
        ),
        regex_error(env_ref_pattern()) is Some ==> r@.len() == 0,
{
    let mut out: Vec<String> = Vec::new();
    if regex_compile_error(env_ref()).is_some() {
        return out;
    }
    let ms = regex_captures_all(env_ref(), input);
    let ghost mv = groups_view(ms@);
    let mut k: usize = 0;
    proof { assert(out.deep_view() =~= env_names(mv, 0)); }
    while k < ms.len()
        invariant
            mv == groups_view(ms@),
            mv.len() == ms@.len(),
            k <= ms@.len(),
            out.deep_view() == env_names(mv, k as int),
        decreases ms@.len() - k,
    {
        let ghost before = out.deep_view();
        match group_at(&ms, k, 1) {
            Some(v) => {
                out.push(v.clone());
                proof { assert(out.deep_view() =~= before + seq![v@]); }
            },
            None => {
                proof { assert(before + Seq::<Seq<char>>::empty() =~= before); }
            },
        }
        k = k + 1;
    }
    out
}

/// Replace the `${NAME}` and `${NAME:-default}` references of `input`, given the variables
/// that are set (`env`, name and value): a set variable gives its value, an unset one its
/// default. Fails, naming each such variable once in ascending order, when some unset
/// variable has no default.
pub fn resolve_env_vars(input: &str, env: &Vec<(String, String)>) -> (r: Result<String, CoreError>)
    ensures
        match r {
            Ok(s) => resolve_env_spec(input@, pairs_view(env@)) == Ok::<Seq<char>, Seq<char>>(s@),
            Err(e) => resolve_env_spec(input@, pairs_view(env@)) matches Err(m) && e matches CoreError::Config(msg) && msg@ == m,
        },
{
    match regex_compile_error(env_ref()) {
        Some(m) => return Err(CoreError::Config(m)),
        None => {},
    }
    let pieces = regex_split(env_ref(), input);
    let ms = regex_captures_all(env_ref(), input);
    let ghost pv = pieces.deep_view();
    let ghost mv = groups_view(ms@);
    let ghost ev = pairs_view(env@);
    let mut missing: Vec<String> = Vec::new();
    let mut k: usize = 0;
    proof { assert(missing.deep_view() =~= sorted_names(missing_vars(ev, mv, 0))); }
    while k < ms.len()
        invariant
            mv == groups_view(ms@),
            ev == pairs_view(env@),
            mv.len() == ms@.len(),
            k <= ms@.len(),
            missing.deep_view() == sorted_names(missing_vars(ev, mv, k as int)),
        decreases ms@.len() - k,
    {
        let ghost before = missing_vars(ev, mv, k as int);
        match group_at(&ms, k, 1) {
            Some(v) => {
                if lookup_value(env, v.as_str()).is_none() && group_at(&ms, k, 2).is_none() {
                    insert_name(&mut missing, v.as_str());
                    proof {
                        assert(missing_vars(ev, mv, k + 1) == before + seq![v@]);
                        assert((before + seq![v@]).drop_last() =~= before);
                    }
                } else {
                    proof { assert(missing_vars(ev, mv, k + 1) =~= before); }
                }
            },
            None => {
                proof { assert(missing_vars(ev, mv, k + 1) =~= before); }
            },
        }
        k = k + 1;
    }
    if missing.len() > 0 {
        let mut m = "missing environment variables: ".to_owned();
        let list = join_strings(&missing, ", ");
        m.append(list.as_str());
        proof { lemma_sorted_nonempty(missing_vars(ev, mv, mv.len() as int)); }
        return Err(CoreError::Config(m));
    }
    proof { lemma_sorted_nonempty(missing_vars(ev, mv, mv.len() as int)); }
    let mut out = String::new();
    if pieces.len() == 0 {
        return Ok(out);
    }
    out.append(pieces[0].as_str());
    proof { assert(pv[0] == pieces[0]@); assert(out@ =~= pv[0]); }
    let mut j: usize = 0;
    while j < pieces.len() - 1
        invariant
            pv == pieces.deep_view(),
            mv == groups_view(ms@),
            ev == pairs_view(env@),
            pv.len() == pieces@.len(),
            0 < pieces@.len(),
            j < pieces@.len(),
            out@ == env_resolved(pv, mv, ev, j as int),
        decreases pieces@.len() - j,
    {
        let value: &str = match group_at(&ms, j, 1) {
            Some(n) => match lookup_value(env, n.as_str()) {
                Some(v) => v.as_str(),
                None => match group_at(&ms, j, 2) {
                    Some(d) => d.as_str(),
                    None => "",
                },
            },
            None => "",
        };
        proof {
            reveal_strlit("");
            assert(value@ == env_replacement(ev, mv, j as int));
        }
        out.append(value);
        out.append(pieces[j + 1].as_str());
        proof { assert(pv[j + 1] == pieces[j + 1]@); }
        j = j + 1;
    }
    Ok(out)
}

proof fn lemma_sorted_nonempty(names: Seq<Seq<char>>)
    ensures
        (sorted_names(names).len() > 0) == (names.len() > 0),
{
    crate::text::law_sorted_names(names);
    if names.len() > 0 {
        assert(names.contains(names[0]));
        assert(sorted_names(names).contains(names[0]));
    } else {
        assert(names =~= Seq::<Seq<char>>::empty());
    }
}

} // verus!
