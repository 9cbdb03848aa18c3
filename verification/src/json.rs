//! A JSON/YAML data value held as plain data, with dot-separated key paths.

use vstd::prelude::*;
use vstd::string::*;

use crate::model::{BranchProtectionPatch, BranchProtectionPatchView, RepoSettingsPatch, RequiredPullRequestReviews, RequiredStatusChecks};
use crate::text::{bool_str, bool_text, chars_of, dec, join, join_strings, push_char, str_eq, usize_to_string};

verus! {

/// A JSON-like value. Numbers keep their canonical decimal text; objects keep
/// their entries in document order, each key once.
#[derive(Debug)]
pub enum Json {
    Null,
    Bool(bool),
    Number(String),
    Str(String),
    Array(Vec<Json>),
    Object(Vec<JsonEntry>),
}

/// One `key: value` entry of a JSON object.
#[derive(Debug)]
pub struct JsonEntry {
    pub key: String,
    pub value: Json,
}


/// The lowercase hexadecimal digit for a value below sixteen.
pub open spec fn hex_digit(d: nat) -> char {
    if d < 10 {
        ((d + 48) as u8) as char
    } else {
        ((d + 87) as u8) as char
    }
}

/// How a JSON string literal writes one character: quotes and backslashes escaped, the
/// control characters below U+0020 as short escapes or `\u00XX`.
pub open spec fn escape_char(c: char) -> Seq<char> {
    if c == '"' {
        seq!['\\', '"']
    } else if c == '\\' {
        seq!['\\', '\\']
    } else if c == '\n' {
        seq!['\\', 'n']
    } else if c == '\r' {
        seq!['\\', 'r']
    } else if c == '\t' {
        seq!['\\', 't']
    } else if c == '\x08' {
        seq!['\\', 'b']
    } else if c == '\x0c' {
        seq!['\\', 'f']
    } else if (c as u32) < 0x20 {
        seq!['\\', 'u', '0', '0', hex_digit((c as u32 / 16) as nat), hex_digit((c as u32 % 16) as nat)]
    } else {
        seq![c]
    }
}

/// The escaped body of a JSON string literal.
pub open spec fn escape_text(s: Seq<char>) -> Seq<char>
    decreases s.len(),
{
    if s.len() == 0 {
        Seq::empty()
    } else {
        escape_text(s.drop_last()) + escape_char(s.last())
    }
}

/// A JSON string literal holding `s`.
pub open spec fn json_string(s: Seq<char>) -> Seq<char> {
    seq!['"'] + escape_text(s) + seq!['"']
}

fn push_escaped_char(out: &mut String, c: char)
    ensures
        final(out)@ == old(out)@ + escape_char(c),
{
    proof {
        reveal_strlit("\\\"");
        reveal_strlit("\\\\");
        reveal_strlit("\\n");
        reveal_strlit("\\r");
        reveal_strlit("\\t");
        reveal_strlit("\\b");
        reveal_strlit("\\f");
        reveal_strlit("\\u00");
    }
    if c == '"' {
        out.append("\\\"");
    } else if c == '\\' {
        out.append("\\\\");
    } else if c == '\n' {
        out.append("\\n");
    } else if c == '\r' {
        out.append("\\r");
    } else if c == '\t' {
        out.append("\\t");
    } else if c == '\x08' {
        out.append("\\b");
    } else if c == '\x0c' {
        out.append("\\f");
    } else if (c as u32) < 0x20 {
        out.append("\\u00");
        let v = c as u32;
        out.append(hex_str(v / 16));
        out.append(hex_str(v % 16));
    } else {
        push_char(out, c);
    }
}

fn hex_str(d: u32) -> (s: &'static str)
    requires
        d < 16,
    ensures
        s@ == seq![hex_digit(d as nat)],
{
    proof {
        reveal_strlit("0"); reveal_strlit("1"); reveal_strlit("2"); reveal_strlit("3");
        reveal_strlit("4"); reveal_strlit("5"); reveal_strlit("6"); reveal_strlit("7");
        reveal_strlit("8"); reveal_strlit("9"); reveal_strlit("a"); reveal_strlit("b");
        reveal_strlit("c"); reveal_strlit("d"); reveal_strlit("e"); reveal_strlit("f");
    }
    if d == 0 { "0" } else if d == 1 { "1" } else if d == 2 { "2" } else if d == 3 { "3" }
    else if d == 4 { "4" } else if d == 5 { "5" } else if d == 6 { "6" } else if d == 7 { "7" }
    else if d == 8 { "8" } else if d == 9 { "9" } else if d == 10 { "a" } else if d == 11 { "b" }
    else if d == 12 { "c" } else if d == 13 { "d" } else if d == 14 { "e" } else { "f" }
}

/// Append `s` as a JSON string literal.
pub fn push_json_string(out: &mut String, s: &str)
    ensures
        final(out)@ == old(out)@ + json_string(s@),
{
    let cs = chars_of(s);
    let ghost start = out@;
    out.append("\"");
    proof { reveal_strlit("\""); }
    for i in 0..cs.len()
        invariant
            cs@ == s@,
            out@ == start + seq!['"'] + escape_text(s@.take(i as int)),
    {
        proof { assert(s@.take(i + 1).drop_last() =~= s@.take(i as int)); }
        push_escaped_char(out, cs[i]);
    }
    out.append("\"");
    proof { assert(s@.take(cs@.len() as int) =~= s@); }
}


/// An object member: the name as a JSON string, a colon, the value's text.
pub open spec fn member(name: Seq<char>, value: Seq<char>) -> Seq<char> {
    json_string(name) + ":"@ + value
}

/// The member for an optional boolean, absent when the value is.
pub open spec fn opt_bool_member(name: Seq<char>, v: Option<bool>) -> Seq<Seq<char>> {
    match v {
        Some(b) => seq![member(name, bool_text(b))],
        None => Seq::empty(),
    }
}

/// A compact JSON object with the given members, in order.
pub open spec fn object(members: Seq<Seq<char>>) -> Seq<char> {
    "{"@ + join(members, ","@) + "}"@
}

/// Compact JSON of a settings patch: the set fields, in declaration order.
pub open spec fn repo_patch_json(p: RepoSettingsPatch) -> Seq<char> {
    object(
        opt_bool_member("has_issues"@, p.has_issues) + opt_bool_member("has_wiki"@, p.has_wiki)
            + opt_bool_member("has_projects"@, p.has_projects)
            + opt_bool_member("allow_merge_commit"@, p.allow_merge_commit)
            + opt_bool_member("allow_squash_merge"@, p.allow_squash_merge)
            + opt_bool_member("allow_rebase_merge"@, p.allow_rebase_merge)
            + opt_bool_member("delete_branch_on_merge"@, p.delete_branch_on_merge)
            + opt_bool_member("allow_auto_merge"@, p.allow_auto_merge) + match p.default_branch {
            Some(b) => seq![member("default_branch"@, json_string(b@))],
            None => Seq::empty(),
        },
    )
}

/// Compact JSON of required status checks.
pub open spec fn checks_json(strict: bool, contexts: Seq<Seq<char>>) -> Seq<char> {
    object(seq![
        member("strict"@, bool_text(strict)),
        member("contexts"@, "["@ + join(contexts.map_values(|c: Seq<char>| json_string(c)), ","@) + "]"@),
    ])
}

/// Compact JSON of required reviews.
pub open spec fn reviews_json(r: RequiredPullRequestReviews) -> Seq<char> {
    object(seq![
        member("required_approving_review_count"@, dec(r.required_approving_review_count as nat)),
        member("dismiss_stale_reviews"@, bool_text(r.dismiss_stale_reviews)),
        member("require_code_owner_reviews"@, bool_text(r.require_code_owner_reviews)),
    ])
}

/// Compact JSON of a branch-protection patch: the set fields, in declaration order.
pub open spec fn protection_patch_json(p: BranchProtectionPatchView) -> Seq<char> {
    object(
        (match p.required_status_checks {
            Some((strict, contexts)) => seq![member("required_status_checks"@, checks_json(strict, contexts.map_values(|c: String| c@)))],
            None => Seq::empty(),
        }) + (match p.required_pull_request_reviews {
            Some(r) => seq![member("required_pull_request_reviews"@, reviews_json(r))],
            None => Seq::empty(),
        }) + opt_bool_member("enforce_admins"@, p.enforce_admins)
            + opt_bool_member("required_linear_history"@, p.required_linear_history)
            + opt_bool_member("allow_force_pushes"@, p.allow_force_pushes)
            + opt_bool_member("allow_deletions"@, p.allow_deletions),
    )
}

fn member_text(name: &str, value: &str) -> (s: String)
    ensures
        s@ == member(name@, value@),
{
    let mut s = String::new();
    push_json_string(&mut s, name);
    s.append(":");
    s.append(value);
    proof { assert(s@ =~= member(name@, value@)); }
    s
}

fn push_bool_member(members: &mut Vec<String>, name: &str, v: Option<bool>)
    ensures
        final(members).deep_view() == old(members).deep_view() + opt_bool_member(name@, v),
{
    let ghost before = members.deep_view();
    match v {
        Some(b) => {
            members.push(member_text(name, bool_str(b)));
            proof { assert(members.deep_view() =~= before + opt_bool_member(name@, v)); }
        },
        None => {
            proof { assert(members.deep_view() =~= before + opt_bool_member(name@, v)); }
        },
    }
}

fn object_text(members: &Vec<String>) -> (s: String)
    ensures
        s@ == object(members.deep_view()),
{
    let mut s = String::new();
    s.append("{");
    let body = join_strings(members, ",");
    s.append(body.as_str());
    s.append("}");
    s
}

/// Compact JSON of a repository-settings patch (only the fields that are set).
pub fn repo_settings_patch_json(p: &RepoSettingsPatch) -> (s: String)
    ensures
        s@ == repo_patch_json(*p),
{
    let mut m: Vec<String> = Vec::new();
    proof { assert(m.deep_view() =~= Seq::<Seq<char>>::empty()); }
    push_bool_member(&mut m, "has_issues", p.has_issues);
    push_bool_member(&mut m, "has_wiki", p.has_wiki);
    push_bool_member(&mut m, "has_projects", p.has_projects);
    push_bool_member(&mut m, "allow_merge_commit", p.allow_merge_commit);
    push_bool_member(&mut m, "allow_squash_merge", p.allow_squash_merge);
    push_bool_member(&mut m, "allow_rebase_merge", p.allow_rebase_merge);
    push_bool_member(&mut m, "delete_branch_on_merge", p.delete_branch_on_merge);
    push_bool_member(&mut m, "allow_auto_merge", p.allow_auto_merge);
    let ghost before = m.deep_view();
    if let Some(b) = &p.default_branch {
        let mut v = String::new();
        push_json_string(&mut v, b.as_str());
        m.push(member_text("default_branch", v.as_str()));
    }
    proof {
        assert(m.deep_view() =~= before + match p.default_branch {
            Some(b) => seq![member("default_branch"@, json_string(b@))],
            None => Seq::<Seq<char>>::empty(),
        });
        assert(m.deep_view() =~= opt_bool_member("has_issues"@, p.has_issues) + opt_bool_member("has_wiki"@, p.has_wiki)
            + opt_bool_member("has_projects"@, p.has_projects)
            + opt_bool_member("allow_merge_commit"@, p.allow_merge_commit)
            + opt_bool_member("allow_squash_merge"@, p.allow_squash_merge)
            + opt_bool_member("allow_rebase_merge"@, p.allow_rebase_merge)
            + opt_bool_member("delete_branch_on_merge"@, p.delete_branch_on_merge)
            + opt_bool_member("allow_auto_merge"@, p.allow_auto_merge) + match p.default_branch {
            Some(b) => seq![member("default_branch"@, json_string(b@))],
            None => Seq::empty(),
        });
    }
    object_text(&m)
}

fn checks_text(c: &RequiredStatusChecks) -> (s: String)
    ensures
        s@ == checks_json(c.strict, c.contexts.deep_view()),
{
    let mut items: Vec<String> = Vec::new();
    for i in 0..c.contexts.len()
        invariant
            items.deep_view() =~= c.contexts.deep_view().take(i as int).map_values(|x: Seq<char>| json_string(x)),
    {
        let ghost before = items.deep_view();
        let mut one = String::new();
        push_json_string(&mut one, c.contexts[i].as_str());
        items.push(one);
        proof {
            assert(items.deep_view() =~= before.push(json_string(c.contexts@[i as int]@)));
            assert(c.contexts.deep_view().take(i + 1) =~= c.contexts.deep_view().take(i as int).push(c.contexts@[i as int]@));
        }
    }
    proof { assert(c.contexts.deep_view().take(c.contexts@.len() as int) =~= c.contexts.deep_view()); }
    let mut list = String::new();
    list.append("[");
    let body = join_strings(&items, ",");
    list.append(body.as_str());
    list.append("]");
    let mut m: Vec<String> = Vec::new();
    m.push(member_text("strict", bool_str(c.strict)));
    m.push(member_text("contexts", list.as_str()));
    proof { assert(m.deep_view() =~= seq![member("strict"@, bool_text(c.strict)), member("contexts"@, list@)]); }
    object_text(&m)
}

fn reviews_text(r: RequiredPullRequestReviews) -> (s: String)
    ensures
        s@ == reviews_json(r),
{
    let count = usize_to_string(r.required_approving_review_count as usize);
    let mut m: Vec<String> = Vec::new();
    m.push(member_text("required_approving_review_count", count.as_str()));
    m.push(member_text("dismiss_stale_reviews", bool_str(r.dismiss_stale_reviews)));
    m.push(member_text("require_code_owner_reviews", bool_str(r.require_code_owner_reviews)));
    proof {
        assert(m.deep_view() =~= seq![
            member("required_approving_review_count"@, dec(r.required_approving_review_count as nat)),
            member("dismiss_stale_reviews"@, bool_text(r.dismiss_stale_reviews)),
            member("require_code_owner_reviews"@, bool_text(r.require_code_owner_reviews)),
        ]);
    }
    object_text(&m)
}

/// Compact JSON of a branch-protection patch (only the fields that are set).
pub fn branch_protection_patch_json(p: &BranchProtectionPatch) -> (s: String)
    ensures
        s@ == protection_patch_json(p@),
{
    let mut m: Vec<String> = Vec::new();
    let ghost start = m.deep_view();
    if let Some(c) = &p.required_status_checks {
        let text = checks_text(c);
        m.push(member_text("required_status_checks", text.as_str()));
        proof {
            assert(c.contexts@.map_values(|x: String| x@) =~= c.contexts.deep_view());
        }
    }
    let ghost after_checks = m.deep_view();
    if let Some(r) = p.required_pull_request_reviews {
        let text = reviews_text(r);
        m.push(member_text("required_pull_request_reviews", text.as_str()));
    }
    let ghost head = m.deep_view();
    proof {
        assert(head =~= (match p@.required_status_checks {
            Some((strict, contexts)) => seq![member("required_status_checks"@, checks_json(strict, contexts.map_values(|c: String| c@)))],
            None => Seq::empty(),
        }) + (match p@.required_pull_request_reviews {
            Some(r) => seq![member("required_pull_request_reviews"@, reviews_json(r))],
            None => Seq::empty(),
        }));
    }
    push_bool_member(&mut m, "enforce_admins", p.enforce_admins);
    push_bool_member(&mut m, "required_linear_history", p.required_linear_history);
    push_bool_member(&mut m, "allow_force_pushes", p.allow_force_pushes);
    push_bool_member(&mut m, "allow_deletions", p.allow_deletions);
    proof {
        assert(m.deep_view() =~= head + opt_bool_member("enforce_admins"@, p.enforce_admins)
            + opt_bool_member("required_linear_history"@, p.required_linear_history)
            + opt_bool_member("allow_force_pushes"@, p.allow_force_pushes)
            + opt_bool_member("allow_deletions"@, p.allow_deletions));
    }
    object_text(&m)
}


/// A JSON value with its text as characters: the mathematical content of a [`Json`].
pub enum JsonV {
    Null,
    Bool(bool),
    Number(Seq<char>),
    Str(Seq<char>),
    Array(Seq<JsonV>),
    Object(Seq<(Seq<char>, JsonV)>),
}

/// The content of a value.
pub open spec fn jv(j: Json) -> JsonV
    decreases j,
{
    match j {
        Json::Null => JsonV::Null,
        Json::Bool(b) => JsonV::Bool(b),
        Json::Number(n) => JsonV::Number(n@),
        Json::Str(s) => JsonV::Str(s@),
        Json::Array(v) => JsonV::Array(jvs(v@)),
        Json::Object(es) => JsonV::Object(jes(es@)),
    }
}

/// The contents of a list of values.
pub open spec fn jvs(s: Seq<Json>) -> Seq<JsonV>
    decreases s,
{
    if s.len() == 0 {
        Seq::empty()
    } else {
        jvs(s.subrange(0, s.len() - 1)).push(jv(s[s.len() - 1]))
    }
}

/// The contents of a list of object entries.
pub open spec fn jes(s: Seq<JsonEntry>) -> Seq<(Seq<char>, JsonV)>
    decreases s,
{
    if s.len() == 0 {
        Seq::empty()
    } else {
        jes(s.subrange(0, s.len() - 1)).push((s[s.len() - 1].key@, jv(s[s.len() - 1].value)))
    }
}


/// The first position of `key` among the entries, if any.
pub open spec fn key_index(es: Seq<(Seq<char>, JsonV)>, key: Seq<char>) -> Option<int>
    decreases es.len(),
{
    if es.len() == 0 {
        None
    } else {
        match key_index(es.drop_last(), key) {
            Some(i) => Some(i),
            None => if es.last().0 == key { Some(es.len() - 1) } else { None },
        }
    }
}

/// `overlay` appended to `base` when both are lists, otherwise `overlay`.
pub open spec fn concat_lists(base: JsonV, overlay: JsonV) -> JsonV {
    match (base, overlay) {
        (JsonV::Array(a), JsonV::Array(b)) => JsonV::Array(a + b),
        (_, o) => o,
    }
}

/// Layered configuration merge: two mappings merge key by key, a key's values merging in
/// turn, except that the `policies` lists of both layers are concatenated; anything else is
/// replaced by the overlay. A key that only the overlay holds is added last; a key that both
/// hold is taken out (the last entry of the base filling its place) and added last.
pub open spec fn merge_v(base: JsonV, overlay: JsonV) -> JsonV
    decreases overlay,
{
    match (base, overlay) {
        (JsonV::Object(b), JsonV::Object(o)) => JsonV::Object(merge_entries(b, o)),
        (_, o) => o,
    }
}

/// The entries of `overlay` merged, in order, into `base`.
pub open spec fn merge_entries(base: Seq<(Seq<char>, JsonV)>, overlay: Seq<(Seq<char>, JsonV)>) -> Seq<(Seq<char>, JsonV)>
    decreases overlay,
{
    if overlay.len() == 0 {
        base
    } else {
        let acc = merge_entries(base, overlay.subrange(0, overlay.len() - 1));
        let e = overlay[overlay.len() - 1];
        match key_index(acc, e.0) {
            Some(i) => moved_to_end(acc, i, e.0, if e.0 == "policies"@ { concat_lists(acc[i].1, e.1) } else { merge_v(acc[i].1, e.1) }),
            None => acc.push(e),
        }
    }
}

/// `acc` with entry `i` taken out, the last entry filling its place, and `(k, v)` added last.
pub open spec fn moved_to_end(acc: Seq<(Seq<char>, JsonV)>, i: int, k: Seq<char>, v: JsonV) -> Seq<(Seq<char>, JsonV)> {
    acc.update(i, acc.last()).drop_last().push((k, v))
}


pub(crate) proof fn lemma_jvs(s: Seq<Json>)
    ensures
        jvs(s).len() == s.len(),
        forall|i: int| 0 <= i < s.len() ==> #[trigger] jvs(s)[i] == jv(s[i]),
    decreases s.len(),
{
    if s.len() > 0 {
        let d = s.subrange(0, s.len() - 1);
        lemma_jvs(d);
        assert forall|i: int| 0 <= i < s.len() implies #[trigger] jvs(s)[i] == jv(s[i]) by {
            if i < s.len() - 1 {
                assert(d[i] == s[i]);
            }
        }
    }
}

pub(crate) proof fn lemma_jes(s: Seq<JsonEntry>)
    ensures
        jes(s).len() == s.len(),
        forall|i: int| 0 <= i < s.len() ==> #[trigger] jes(s)[i] == (s[i].key@, jv(s[i].value)),
    decreases s.len(),
{
    if s.len() > 0 {
        let d = s.subrange(0, s.len() - 1);
        lemma_jes(d);
        assert forall|i: int| 0 <= i < s.len() implies #[trigger] jes(s)[i] == (s[i].key@, jv(s[i].value)) by {
            if i < s.len() - 1 {
                assert(d[i] == s[i]);
            }
        }
    }
}

proof fn lemma_merge_entries_step(base: Seq<(Seq<char>, JsonV)>, o: Seq<(Seq<char>, JsonV)>, k: int)
    requires
        0 <= k < o.len(),
    ensures
        merge_entries(base, o.take(k + 1)) == ({
            let acc = merge_entries(base, o.take(k));
            let e = o[k];
            match key_index(acc, e.0) {
                Some(i) => moved_to_end(acc, i, e.0, if e.0 == "policies"@ { concat_lists(acc[i].1, e.1) } else { merge_v(acc[i].1, e.1) }),
                None => acc.push(e),
            }
        }),
{
    let t = o.take(k + 1);
    assert(t.subrange(0, t.len() - 1) =~= o.take(k));
    assert(t[t.len() - 1] == o[k]);
}

pub(crate) fn find_key(es: &Vec<JsonEntry>, key: &str) -> (r: Option<usize>)
    ensures
        match r {
            Some(i) => i < es@.len() && key_index(jes(es@), key@) == Some(i as int),
            None => key_index(jes(es@), key@) is None,
        },
{
    proof { lemma_jes(es@); }
    let mut i: usize = 0;
    while i < es.len()
        invariant
            i <= es@.len(),
            jes(es@).len() == es@.len(),
            forall|j: int| 0 <= j < es@.len() ==> #[trigger] jes(es@)[j] == (es@[j].key@, jv(es@[j].value)),
            key_index(jes(es@).take(i as int), key@) is None,
        decreases es@.len() - i,
    {
        proof { assert(jes(es@).take(i + 1).drop_last() =~= jes(es@).take(i as int)); }
        if str_eq(es[i].key.as_str(), key) {
            proof {
                lemma_key_index_prefix(jes(es@), key@, i + 1);
            }
            return Some(i);
        }
        i = i + 1;
    }
    proof { assert(jes(es@).take(es@.len() as int) =~= jes(es@)); }
    None
}

proof fn lemma_key_index_prefix(es: Seq<(Seq<char>, JsonV)>, key: Seq<char>, n: int)
    requires
        0 <= n <= es.len(),
        key_index(es.take(n), key) is Some,
    ensures
        key_index(es, key) == key_index(es.take(n), key),
    decreases es.len() - n,
{
    if n < es.len() {
        assert(es.take(n + 1).drop_last() =~= es.take(n));
        lemma_key_index_prefix(es, key, n + 1);
    } else {
        assert(es.take(n) =~= es);
    }
}

fn concat_sequences(base: Json, overlay: Json) -> (r: Json)
    ensures
        jv(r) == concat_lists(jv(base), jv(overlay)),
{
    match (base, overlay) {
        (Json::Array(a), Json::Array(b)) => {
            let ghost (av, bv) = (a@, b@);
            let mut a = a;
            let mut b = b;
            a.append(&mut b);
            proof {
                lemma_jvs(av);
                lemma_jvs(bv);
                lemma_jvs(a@);
                assert(jvs(a@) =~= jvs(av) + jvs(bv));
            }
            Json::Array(a)
        },
        (_, o) => o,
    }
}

/// Merge one configuration layer into another (see [`merge_v`]).
pub fn deep_merge(base: Json, overlay: Json) -> (r: Json)
    ensures
        jv(r) == merge_v(jv(base), jv(overlay)),
    decreases overlay,
{
    let ghost g_overlay = overlay;
    let ghost g_base = base;
    match (base, overlay) {
        (Json::Object(b), Json::Object(o)) => {
            let ghost bv = jes(b@);
            let ghost go = o;
            let ghost ov = o@;
            proof { lemma_jes(ov); }
            let n_entries = o.len();
            assert(ov.len() == n_entries);
            let mut acc = b;
            let mut rest = o;
            let mut k: usize = 0;
            proof { assert(jes(ov).take(0) =~= Seq::<(Seq<char>, JsonV)>::empty()); }
            while rest.len() > 0
                invariant
                    overlay == g_overlay,
                    g_overlay == Json::Object(go),
                    ov == go@,
                    k <= ov.len(),
                    k + rest@.len() == ov.len(),
                    ov.len() <= usize::MAX,
                    rest@ == ov.skip(k as int),
                    jes(ov).len() == ov.len(),
                    forall|j: int| 0 <= j < ov.len() ==> #[trigger] jes(ov)[j] == (ov[j].key@, jv(ov[j].value)),
                    jes(acc@) == merge_entries(bv, jes(ov).take(k as int)),
                decreases rest@.len(),
            {
                let e = rest.remove(0);
                proof {
                    assert(e == ov[k as int]);
                    lemma_merge_entries_step(bv, jes(ov), k as int);
                    assert(rest@ =~= ov.skip(k + 1));
                }
                let ghost before = jes(acc@);
                let ghost acc_before = acc@;
                proof { lemma_jes(acc_before); }
                match find_key(&acc, e.key.as_str()) {
                    Some(i) => {
                        let old_e = acc.swap_remove(i);
                        proof { assert(old_e == acc_before[i as int]); }
                        let is_policies = str_eq(e.key.as_str(), "policies");
                        let ghost ek = e.key@;
                        let ghost evv = jv(e.value);
                        let merged = if is_policies {
                            concat_sequences(old_e.value, e.value)
                        } else {
                            proof {
                                assert(g_overlay->Object_0 == go);
                                assert(decreases_to!(g_overlay => g_overlay->Object_0));
                                assert(decreases_to!(go => go@));
                                assert(decreases_to!(go@ => go@[k as int]));
                                assert(decreases_to!(go@[k as int] => go@[k as int].value));
                                assert(decreases_to!(g_overlay => ov[k as int].value));
                                assert(decreases_to!(g_overlay => e.value));
                            }
                            deep_merge(old_e.value, e.value)
                        };
                        let ghost mv = jv(merged);
                        assert(mv == if ek == "policies"@ {
                            concat_lists(before[i as int].1, evv)
                        } else {
                            merge_v(before[i as int].1, evv)
                        });
                        acc.push(JsonEntry { key: e.key, value: merged });
                        proof {
                            lemma_jes(acc@);
                            assert(jes(acc@) =~= moved_to_end(before, i as int, ek, mv));
                        }
                    },
                    None => {
                        let ghost ee = (e.key@, jv(e.value));
                        acc.push(e);
                        proof {
                            lemma_jes(acc@);
                            assert(jes(acc@) =~= before.push(ee));
                        }
                    },
                }
                k = k + 1;
            }
            proof { assert(jes(ov).take(ov.len() as int) =~= jes(ov)); }
            Json::Object(acc)
        },
        (_, o) => o,
    }
}


/// The value of `key` in a mapping, if it has one.
pub open spec fn get_key(j: JsonV, key: Seq<char>) -> Option<JsonV> {
    match j {
        JsonV::Object(es) => match key_index(es, key) {
            Some(i) => Some(es[i].1),
            None => None,
        },
        _ => None,
    }
}

/// The string name of a policy entry, when it has one.
pub open spec fn policy_name_of(p: JsonV) -> Option<Seq<char>> {
    match get_key(p, "name"@) {
        Some(JsonV::Str(s)) => Some(s),
        _ => None,
    }
}

/// Some name is used by two policies.
pub open spec fn has_duplicate_names(ps: Seq<JsonV>) -> bool {
    exists|i: int, j: int| 0 <= i < j < ps.len() && (#[trigger] policy_name_of(ps[i])) is Some
        && policy_name_of(ps[i]) == #[trigger] policy_name_of(ps[j])
}

/// Whether policy `i` survives de-duplication: it has no `name` key, or it is the last
/// policy with its string name.
pub open spec fn survives(ps: Seq<JsonV>, i: int) -> bool {
    get_key(ps[i], "name"@) is None || (policy_name_of(ps[i]) is Some && forall|j: int|
        i < j < ps.len() ==> #[trigger] policy_name_of(ps[j]) != policy_name_of(ps[i]))
}

/// The policies that survive, in order.
pub open spec fn surviving(ps: Seq<JsonV>, n: int) -> Seq<JsonV>
    decreases n,
{
    if n <= 0 {
        Seq::empty()
    } else {
        surviving(ps, n - 1) + if survives(ps, n - 1) { seq![ps[n - 1]] } else { Seq::empty() }
    }
}

/// The policy list with duplicates removed: when some name repeats, the last definition of
/// each name wins (and a policy whose `name` is not a string is dropped); otherwise unchanged.
pub open spec fn dedup_list(ps: Seq<JsonV>) -> Seq<JsonV> {
    if has_duplicate_names(ps) { surviving(ps, ps.len() as int) } else { ps }
}

/// A merged configuration with its `policies` list de-duplicated by name.
pub open spec fn dedup_v(j: JsonV) -> JsonV {
    match j {
        JsonV::Object(es) => match key_index(es, "policies"@) {
            Some(i) => match es[i].1 {
                JsonV::Array(ps) => JsonV::Object(es.update(i, (es[i].0, JsonV::Array(dedup_list(ps))))),
                _ => j,
            },
            None => j,
        },
        _ => j,
    }
}

fn policy_name(p: &Json) -> (r: Option<&str>)
    ensures
        match r {
            Some(s) => policy_name_of(jv(*p)) == Some(s@),
            None => policy_name_of(jv(*p)) is None,
        },
{
    match p {
        Json::Object(es) => match find_key(es, "name") {
            Some(i) => {
                proof { lemma_jes(es@); }
                match &es[i].value {
                    Json::Str(s) => Some(s.as_str()),
                    _ => None,
                }
            },
            None => None,
        },
        _ => None,
    }
}

fn has_name_key(p: &Json) -> (b: bool)
    ensures
        b == (get_key(jv(*p), "name"@) is Some),
{
    match p {
        Json::Object(es) => find_key(es, "name").is_some(),
        _ => false,
    }
}

fn same_name_later(ps: &Vec<Json>, i: usize, name: &str) -> (b: bool)
    requires
        i < ps@.len(),
    ensures
        b == exists|j: int| i < j < ps@.len() && #[trigger] policy_name_of(jvs(ps@)[j]) == Some(name@),
{
    proof { lemma_jvs(ps@); }
    let len = ps.len();
    let mut j = i + 1;
    while j < len
        invariant
            i < j <= ps@.len(),
            len == ps@.len(),
            jvs(ps@).len() == ps@.len(),
            forall|k: int| 0 <= k < ps@.len() ==> #[trigger] jvs(ps@)[k] == jv(ps@[k]),
            forall|k: int| i < k < j ==> #[trigger] policy_name_of(jvs(ps@)[k]) != Some(name@),
        decreases ps@.len() - j,
    {
        match policy_name(&ps[j]) {
            Some(n) => if str_eq(n, name) {
                proof { assert(policy_name_of(jvs(ps@)[j as int]) == Some(name@)); }
                return true;
            },
            None => {},
        }
        j = j + 1;
    }
    false
}

fn dedup_policy_list(ps: Vec<Json>) -> (r: Vec<Json>)
    ensures
        jvs(r@) == dedup_list(jvs(ps@)),
{
    let ghost pv = jvs(ps@);
    proof { lemma_jvs(ps@); }
    let n = ps.len();
    let mut dup = false;
    let mut i: usize = 0;
    while i < n
        invariant
            n == ps@.len(),
            i <= n,
            pv == jvs(ps@),
            pv.len() == n,
            forall|k: int| 0 <= k < n ==> #[trigger] pv[k] == jv(ps@[k]),
            dup == exists|a: int, b: int| 0 <= a < i && a < b < n && (#[trigger] policy_name_of(pv[a])) is Some
                && policy_name_of(pv[a]) == #[trigger] policy_name_of(pv[b]),
        decreases n - i,
    {
        let ghost old_dup = dup;
        match policy_name(&ps[i]) {
            Some(name) => {
                if same_name_later(&ps, i, name) {
                    dup = true;
                }
            },
            None => {},
        }
        proof {
            let ex_new = exists|a: int, b: int| 0 <= a < i + 1 && a < b < n && (#[trigger] policy_name_of(pv[a])) is Some
                && policy_name_of(pv[a]) == #[trigger] policy_name_of(pv[b]);
            let ex_i = exists|b: int| i < b < n && policy_name_of(pv[i as int]) is Some
                && policy_name_of(pv[i as int]) == #[trigger] policy_name_of(pv[b]);
            assert(ex_new == (old_dup || ex_i)) by {
                if ex_new {
                    let (a, b) = choose|a: int, b: int| 0 <= a < i + 1 && a < b < n && (#[trigger] policy_name_of(pv[a])) is Some
                        && policy_name_of(pv[a]) == #[trigger] policy_name_of(pv[b]);
                    if a < i {
                        assert(old_dup);
                    } else {
                        assert(ex_i);
                    }
                }
            }
            assert(dup == (old_dup || ex_i));
        }
        i = i + 1;
    }
    if !dup {
        return ps;
    }
    let mut out: Vec<Json> = Vec::new();
    let mut rest = ps;
    let mut k: usize = 0;
    let ghost orig = rest@;
    while k < n
        invariant
            n == orig.len(),
            k <= n,
            pv == jvs(orig),
            pv.len() == n,
            forall|x: int| 0 <= x < n ==> #[trigger] pv[x] == jv(orig[x]),
            rest@.len() == n - k,
            forall|x: int| 0 <= x < n - k ==> #[trigger] rest@[x] == orig[x + k],
            jvs(out@) == surviving(pv, k as int),
        decreases n - k,
    {
        let keep = if !has_name_key(&rest[0]) {
            true
        } else {
            match policy_name(&rest[0]) {
                Some(name) => !later_in(&rest, name),
                None => false,
            }
        };
        proof {
            assert(rest@[0] == orig[k as int]);
            assert(pv[k as int] == jv(rest@[0]));
            assert forall|j: int| 0 < j < rest@.len() implies jv(#[trigger] rest@[j]) == pv[j + k] by {
                assert(rest@[j] == orig[j + k]);
            }
            if get_key(pv[k as int], "name"@) is Some && policy_name_of(pv[k as int]) is Some {
                let nm = policy_name_of(pv[k as int])->0;
                if keep {
                    assert forall|j: int| k < j < n implies #[trigger] policy_name_of(pv[j]) != policy_name_of(pv[k as int]) by {
                        assert(jv(rest@[j - k]) == pv[j]);
                    }
                } else {
                    let j = choose|j: int| 0 < j < rest@.len() && #[trigger] policy_name_of(jv(rest@[j])) == Some(nm);
                    assert(jv(rest@[j]) == pv[j + k]);
                }
            }
            assert(keep == survives(pv, k as int));
        }
        let p = rest.remove(0);
        let ghost before_out = out@;
        let ghost pvk = jv(p);
        if keep {
            out.push(p);
            proof { lemma_jvs_push(before_out, p); }
        }
        proof {
            assert(jvs(out@) =~= surviving(pv, k + 1));
            assert forall|x: int| 0 <= x < n - (k + 1) implies #[trigger] rest@[x] == orig[x + k + 1] by {}
        }
        k = k + 1;
    }
    out
}

proof fn lemma_jvs_push(s: Seq<Json>, x: Json)
    ensures
        jvs(s.push(x)) == jvs(s).push(jv(x)),
{
    let t = s.push(x);
    assert(t.subrange(0, t.len() - 1) =~= s);
}

fn later_in(rest: &Vec<Json>, name: &str) -> (b: bool)
    requires
        rest@.len() > 0,
    ensures
        b == exists|j: int| 0 < j < rest@.len() && #[trigger] policy_name_of(jv(rest@[j])) == Some(name@),
{
    let mut j: usize = 1;
    while j < rest.len()
        invariant
            1 <= j <= rest@.len(),
            forall|k: int| 0 < k < j ==> #[trigger] policy_name_of(jv(rest@[k])) != Some(name@),
        decreases rest@.len() - j,
    {
        match policy_name(&rest[j]) {
            Some(n) => if str_eq(n, name) {
                return true;
            },
            None => {},
        }
        j = j + 1;
    }
    false
}

/// De-duplicate the `policies` list of a merged configuration by name, the last definition
/// of a name winning.
pub fn dedup_policies(merged: Json) -> (r: Json)
    ensures
        jv(r) == dedup_v(jv(merged)),
{
    let ghost mv = jv(merged);
    match merged {
        Json::Object(es) => {
            proof { lemma_jes(es@); }
            match find_key(&es, "policies") {
                Some(i) => {
                    let mut es = es;
                    let ghost before = es@;
                    let e = es.remove(i);
                    match e.value {
                        Json::Array(ps) => {
                            let deduped = dedup_policy_list(ps);
                            es.insert(i, JsonEntry { key: e.key, value: Json::Array(deduped) });
                            proof {
                                lemma_jes(es@);
                                assert(jes(es@) =~= jes(before).update(i as int, (jes(before)[i as int].0, JsonV::Array(jvs(deduped@)))));
                            }
                            Json::Object(es)
                        },
                        other => {
                            es.insert(i, JsonEntry { key: e.key, value: other });
                            proof {
                                lemma_jes(es@);
                                assert(es@ =~= before);
                            }
                            Json::Object(es)
                        },
                    }
                },
                None => Json::Object(es),
            }
        },
        other => other,
    }
}

/// Merge configuration layers in order, later ones overriding earlier ones.
pub open spec fn merge_all(layers: Seq<JsonV>) -> JsonV
    decreases layers.len(),
{
    if layers.len() == 0 {
        JsonV::Object(Seq::empty())
    } else {
        merge_v(merge_all(layers.drop_last()), layers.last())
    }
}

/// Merge configuration layers in order into one value, then de-duplicate its policies.
pub fn merge_layers(layers: Vec<Json>) -> (r: Json)
    ensures
        jv(r) == dedup_v(merge_all(jvs(layers@))),
{
    let ghost lv = jvs(layers@);
    proof { lemma_jvs(layers@); }
    let n = layers.len();
    let mut result = Json::Object(Vec::new());
    proof { assert(jes(Seq::<JsonEntry>::empty()) =~= Seq::empty()); }
    let mut rest = layers;
    let ghost orig = rest@;
    let mut k: usize = 0;
    while k < n
        invariant
            n == orig.len(),
            k <= n,
            lv == jvs(orig),
            lv.len() == n,
            forall|x: int| 0 <= x < n ==> #[trigger] lv[x] == jv(orig[x]),
            rest@.len() == n - k,
            forall|x: int| 0 <= x < n - k ==> #[trigger] rest@[x] == orig[x + k],
            jv(result) == merge_all(lv.take(k as int)),
        decreases n - k,
    {
        let layer = rest.remove(0);
        proof {
            assert(layer == orig[k as int]);
            assert(lv.take(k + 1).drop_last() =~= lv.take(k as int));
            assert forall|x: int| 0 <= x < n - (k + 1) implies #[trigger] rest@[x] == orig[x + k + 1] by {}
        }
        result = deep_merge(result, layer);
        k = k + 1;
    }
    proof { assert(lv.take(n as int) =~= lv); }
    dedup_policies(result)
}

/// A copy of a value, equal to it in every part.
pub fn clone_json(j: &Json) -> (r: Json)
    ensures
        jv(r) == jv(*j),
    decreases j,
{
    match j {
        Json::Null => Json::Null,
        Json::Bool(b) => Json::Bool(*b),
        Json::Number(n) => Json::Number(n.clone()),
        Json::Str(s) => Json::Str(s.clone()),
        Json::Array(v) => {
            proof { lemma_jvs(v@); }
            let mut out: Vec<Json> = Vec::new();
            let mut i: usize = 0;
            proof { assert(jvs(out@) =~= jvs(v@).take(0)); }
            while i < v.len()
                invariant
                    *j == Json::Array(*v),
                    i <= v@.len(),
                    jvs(v@).len() == v@.len(),
                    forall|k: int| 0 <= k < v@.len() ==> #[trigger] jvs(v@)[k] == jv(v@[k]),
                    jvs(out@) == jvs(v@).take(i as int),
                decreases v@.len() - i,
            {
                proof {
                    assert(decreases_to!(*j => j->Array_0));
                    assert(decreases_to!(*v => v@));
                    assert(decreases_to!(v@ => v@[i as int]));
                }
                let c = clone_json(&v[i]);
                let ghost before = out@;
                out.push(c);
                proof {
                    lemma_jvs(out@);
                    lemma_jvs(before);
                    assert(jvs(out@) =~= jvs(v@).take(i + 1));
                }
                i = i + 1;
            }
            proof { assert(jvs(v@).take(v@.len() as int) =~= jvs(v@)); }
            Json::Array(out)
        },
        Json::Object(es) => {
            proof { lemma_jes(es@); }
            let mut out: Vec<JsonEntry> = Vec::new();
            let mut i: usize = 0;
            proof { assert(jes(out@) =~= jes(es@).take(0)); }
            while i < es.len()
                invariant
                    *j == Json::Object(*es),
                    i <= es@.len(),
                    jes(es@).len() == es@.len(),
                    forall|k: int| 0 <= k < es@.len() ==> #[trigger] jes(es@)[k] == (es@[k].key@, jv(es@[k].value)),
                    jes(out@) == jes(es@).take(i as int),
                decreases es@.len() - i,
            {
                proof {
                    assert(decreases_to!(*j => j->Object_0));
                    assert(decreases_to!(*es => es@));
                    assert(decreases_to!(es@ => es@[i as int]));
                    assert(decreases_to!(es@[i as int] => es@[i as int].value));
                }
                let c = clone_json(&es[i].value);
                let ghost before = out@;
                out.push(JsonEntry { key: es[i].key.clone(), value: c });
                proof {
                    lemma_jes(out@);
                    lemma_jes(before);
                    assert(jes(out@) =~= jes(es@).take(i + 1));
                }
                i = i + 1;
            }
            proof { assert(jes(es@).take(es@.len() as int) =~= jes(es@)); }
            Json::Object(out)
        },
    }
}

impl Clone for Json {
    fn clone(&self) -> (r: Self)
        ensures
            jv(r) == jv(*self),
    {
        clone_json(self)
    }
}

impl Clone for JsonEntry {
    fn clone(&self) -> (r: Self)
        ensures
            r.key@ == self.key@,
            jv(r.value) == jv(self.value),
    {
        JsonEntry { key: self.key.clone(), value: clone_json(&self.value) }
    }
}

/// The entries with `k` holding `v`: in its place when the key is there, else added last.
pub open spec fn put_entry(es: Seq<(Seq<char>, JsonV)>, k: Seq<char>, v: JsonV) -> Seq<(Seq<char>, JsonV)> {
    match key_index(es, k) {
        Some(i) => es.update(i, (k, v)),
        None => es.push((k, v)),
    }
}

/// Store `v` under `k`: in the entry that has the key, else in a new last entry.
pub fn put_entry_value(es: &mut Vec<JsonEntry>, k: &str, v: Json)
    ensures
        jes(final(es)@) == put_entry(jes(old(es)@), k@, jv(v)),
{
    proof { lemma_jes(es@); }
    let ghost before = es@;
    let ghost vv = jv(v);
    match find_key(es, k) {
        Some(i) => {
            es.set(i, JsonEntry { key: k.to_owned(), value: v });
            proof {
                lemma_jes(es@);
                assert(jes(es@) =~= jes(before).update(i as int, (k@, vv)));
            }
        },
        None => {
            es.push(JsonEntry { key: k.to_owned(), value: v });
            proof {
                lemma_jes(es@);
                assert(jes(es@) =~= jes(before).push((k@, vv)));
            }
        },
    }
}

/// The value of the first entry keyed `k`, if any.
pub open spec fn entry_value(es: Seq<(Seq<char>, JsonV)>, k: Seq<char>) -> Option<JsonV> {
    match key_index(es, k) {
        Some(i) => Some(es[i].1),
        None => None,
    }
}

pub(crate) proof fn lemma_key_index_in_range(es: Seq<(Seq<char>, JsonV)>, k: Seq<char>)
    ensures
        key_index(es, k) matches Some(i) ==> 0 <= i < es.len() && es[i].0 == k,
    decreases es.len(),
{
    if es.len() > 0 {
        lemma_key_index_in_range(es.drop_last(), k);
    }
}

pub(crate) proof fn lemma_key_index_keys_same(es: Seq<(Seq<char>, JsonV)>, fs: Seq<(Seq<char>, JsonV)>, k: Seq<char>)
    requires
        es.len() == fs.len(),
        forall|j: int| 0 <= j < es.len() ==> (#[trigger] es[j]).0 == fs[j].0,
    ensures
        key_index(es, k) == key_index(fs, k),
    decreases es.len(),
{
    if es.len() > 0 {
        lemma_key_index_keys_same(es.drop_last(), fs.drop_last(), k);
        assert(es.last().0 == fs.last().0);
    }
}

/// No two entries share a key, as in any mapping.
pub open spec fn keys_distinct(es: Seq<(Seq<char>, JsonV)>) -> bool {
    forall|a: int, b: int| 0 <= a < es.len() && 0 <= b < es.len() && a != b ==> #[trigger] es[a].0 != #[trigger] es[b].0
}

proof fn lemma_key_index_absent(es: Seq<(Seq<char>, JsonV)>, k: Seq<char>)
    ensures
        key_index(es, k) is None ==> forall|j: int| 0 <= j < es.len() ==> (#[trigger] es[j]).0 != k,
    decreases es.len(),
{
    if es.len() > 0 {
        let d = es.drop_last();
        lemma_key_index_absent(d, k);
        if key_index(es, k) is None {
            assert forall|j: int| 0 <= j < es.len() implies (#[trigger] es[j]).0 != k by {
                if j < es.len() - 1 {
                    assert(d[j] == es[j]);
                }
            }
        }
    }
}

proof fn lemma_key_index_unique(es: Seq<(Seq<char>, JsonV)>, k: Seq<char>, q: int)
    requires
        keys_distinct(es),
        0 <= q < es.len(),
        es[q].0 == k,
    ensures
        key_index(es, k) == Some(q),
{
    lemma_key_index_in_range(es, k);
    lemma_key_index_absent(es, k);
}

/// Taking an entry out and adding it last with a new value keeps the keys distinct, gives the
/// key that value and leaves every other key's value as it was.
proof fn lemma_moved_to_end(acc: Seq<(Seq<char>, JsonV)>, i: int, k0: Seq<char>, v: JsonV, k: Seq<char>)
    requires
        keys_distinct(acc),
        0 <= i < acc.len(),
        acc[i].0 == k0,
    ensures
        keys_distinct(moved_to_end(acc, i, k0, v)),
        entry_value(moved_to_end(acc, i, k0, v), k0) == Some(v),
        k != k0 ==> entry_value(moved_to_end(acc, i, k0, v), k) == entry_value(acc, k),
{
    let m = moved_to_end(acc, i, k0, v);
    let n = acc.len();
    assert(m.len() == n);
    assert forall|p: int| 0 <= p < n implies (#[trigger] m[p]).0 == acc[if p == n - 1 { i } else if p == i { n - 1 } else { p }].0 by {}
    assert forall|a: int, b: int| 0 <= a < n && 0 <= b < n && a != b implies #[trigger] m[a].0 != #[trigger] m[b].0 by {
        let oa = if a == n - 1 { i } else if a == i { n - 1 } else { a };
        let ob = if b == n - 1 { i } else if b == i { n - 1 } else { b };
        assert(m[a].0 == acc[oa].0);
        assert(m[b].0 == acc[ob].0);
    }
    lemma_key_index_unique(m, k0, n - 1);
    if k != k0 {
        lemma_key_index_in_range(acc, k);
        lemma_key_index_absent(acc, k);
        match key_index(acc, k) {
            Some(q) => {
                let p = if q == n - 1 { i } else { q };
                assert(m[p] == acc[q]);
                lemma_key_index_unique(m, k, p);
            },
            None => {
                lemma_key_index_in_range(m, k);
                if key_index(m, k) is Some {
                    let p = key_index(m, k)->0;
                    let op = if p == n - 1 { i } else if p == i { n - 1 } else { p };
                    assert(m[p].0 == acc[op].0);
                }
            },
        }
    }
}

/// Adding an entry under a new key keeps the keys distinct, gives it its value and leaves every
/// other key's value as it was.
proof fn lemma_pushed_new(acc: Seq<(Seq<char>, JsonV)>, e: (Seq<char>, JsonV), k: Seq<char>)
    requires
        keys_distinct(acc),
        key_index(acc, e.0) is None,
    ensures
        keys_distinct(acc.push(e)),
        entry_value(acc.push(e), e.0) == Some(e.1),
        k != e.0 ==> entry_value(acc.push(e), k) == entry_value(acc, k),
{
    lemma_key_index_absent(acc, e.0);
    let m = acc.push(e);
    assert forall|a: int, b: int| 0 <= a < m.len() && 0 <= b < m.len() && a != b implies #[trigger] m[a].0 != #[trigger] m[b].0 by {
        if a < acc.len() {
            assert(m[a] == acc[a]);
        }
        if b < acc.len() {
            assert(m[b] == acc[b]);
        }
    }
    lemma_key_index_unique(m, e.0, acc.len() as int);
    assert(m.drop_last() =~= acc);
    if k != e.0 {
        assert(m.last().0 != k);
        assert(key_index(m, k) == key_index(acc, k));
        lemma_key_index_in_range(acc, k);
        if key_index(acc, k) is Some {
            let q = key_index(acc, k)->0;
            assert(m[q] == acc[q]);
        }
    }
}

/// Merging into a mapping keeps its keys distinct.
proof fn lemma_merge_distinct(b: Seq<(Seq<char>, JsonV)>, o: Seq<(Seq<char>, JsonV)>)
    requires
        keys_distinct(b),
    ensures
        keys_distinct(merge_entries(b, o)),
    decreases o.len(),
{
    if o.len() > 0 {
        let d = o.subrange(0, o.len() - 1);
        let acc = merge_entries(b, d);
        let e = o[o.len() - 1];
        lemma_merge_distinct(b, d);
        lemma_key_index_in_range(acc, e.0);
        match key_index(acc, e.0) {
            Some(i) => lemma_moved_to_end(acc, i, e.0, if e.0 == "policies"@ { concat_lists(acc[i].1, e.1) } else { merge_v(acc[i].1, e.1) }, e.0),
            None => lemma_pushed_new(acc, e, e.0),
        }
    }
}

/// How the value of key `k` of the base combines with the overlay's value `v`.
pub open spec fn combined(k: Seq<char>, b: Option<JsonV>, v: JsonV) -> JsonV {
    match b {
        Some(bv) => if k == "policies"@ { concat_lists(bv, v) } else { merge_v(bv, v) },
        None => v,
    }
}

/// One merge step: the value of `k` after the overlay entry `e` is merged into `acc`.
proof fn lemma_merge_step(acc: Seq<(Seq<char>, JsonV)>, e: (Seq<char>, JsonV), k: Seq<char>)
    requires
        keys_distinct(acc),
    ensures
        entry_value(match key_index(acc, e.0) {
            Some(i) => moved_to_end(acc, i, e.0, if e.0 == "policies"@ { concat_lists(acc[i].1, e.1) } else { merge_v(acc[i].1, e.1) }),
            None => acc.push(e),
        }, k) == if k == e.0 { Some(combined(k, entry_value(acc, k), e.1)) } else { entry_value(acc, k) },
{
    lemma_key_index_in_range(acc, e.0);
    match key_index(acc, e.0) {
        Some(i) => lemma_moved_to_end(acc, i, e.0, if e.0 == "policies"@ { concat_lists(acc[i].1, e.1) } else { merge_v(acc[i].1, e.1) }, k),
        None => lemma_pushed_new(acc, e, k),
    }
}

proof fn lemma_merge_untouched(b: Seq<(Seq<char>, JsonV)>, o: Seq<(Seq<char>, JsonV)>, k: Seq<char>)
    requires
        keys_distinct(b),
        forall|j: int| 0 <= j < o.len() ==> (#[trigger] o[j]).0 != k,
    ensures
        entry_value(merge_entries(b, o), k) == entry_value(b, k),
    decreases o.len(),
{
    if o.len() > 0 {
        let d = o.subrange(0, o.len() - 1);
        assert forall|j: int| 0 <= j < d.len() implies (#[trigger] d[j]).0 != k by {
            assert(d[j] == o[j]);
        }
        lemma_merge_untouched(b, d, k);
        lemma_merge_distinct(b, d);
        lemma_merge_step(merge_entries(b, d), o[o.len() - 1], k);
    }
}

proof fn lemma_merge_touched_once(b: Seq<(Seq<char>, JsonV)>, o: Seq<(Seq<char>, JsonV)>, k: Seq<char>, j: int)
    requires
        keys_distinct(b),
        0 <= j < o.len(),
        o[j].0 == k,
        forall|m: int| 0 <= m < o.len() && m != j ==> (#[trigger] o[m]).0 != k,
    ensures
        entry_value(merge_entries(b, o), k) == Some(combined(k, entry_value(b, k), o[j].1)),
    decreases o.len(),
{
    let d = o.subrange(0, o.len() - 1);
    let acc = merge_entries(b, d);
    lemma_merge_distinct(b, d);
    lemma_merge_step(acc, o[o.len() - 1], k);
    if j == o.len() - 1 {
        assert forall|m: int| 0 <= m < d.len() implies (#[trigger] d[m]).0 != k by {
            assert(d[m] == o[m]);
        }
        lemma_merge_untouched(b, d, k);
    } else {
        assert forall|m: int| 0 <= m < d.len() && m != j implies (#[trigger] d[m]).0 != k by {
            assert(d[m] == o[m]);
        }
        assert(d[j] == o[j]);
        lemma_merge_touched_once(b, d, k, j);
    }
}

/// Merging layers keeps every key of the base that the overlay does not mention, with its value.
pub proof fn law_merge_keeps_base_keys(base: Seq<(Seq<char>, JsonV)>, overlay: Seq<(Seq<char>, JsonV)>, k: Seq<char>)
    requires
        keys_distinct(base),
        forall|j: int| 0 <= j < overlay.len() ==> (#[trigger] overlay[j]).0 != k,
    ensures
        get_key(merge_v(JsonV::Object(base), JsonV::Object(overlay)), k) == entry_value(base, k),
{
    lemma_merge_untouched(base, overlay, k);
}

/// A later layer's value for a key replaces the earlier one, unless both are mappings (which
/// merge in turn) or the key is `policies` (whose lists are concatenated).
pub proof fn law_merge_later_value_wins(base: Seq<(Seq<char>, JsonV)>, overlay: Seq<(Seq<char>, JsonV)>, k: Seq<char>, j: int)
    requires
        keys_distinct(base),
        0 <= j < overlay.len(),
        overlay[j].0 == k,
        forall|m: int| 0 <= m < overlay.len() && m != j ==> (#[trigger] overlay[m]).0 != k,
        k != "policies"@,
        !(overlay[j].1 is Object),
    ensures
        get_key(merge_v(JsonV::Object(base), JsonV::Object(overlay)), k) == Some(overlay[j].1),
{
    lemma_merge_touched_once(base, overlay, k, j);
}

/// The `policies` lists of two layers are concatenated, the earlier layer's first.
pub proof fn law_merge_concatenates_policies(
    base: Seq<(Seq<char>, JsonV)>,
    overlay: Seq<(Seq<char>, JsonV)>,
    j: int,
    first: Seq<JsonV>,
    second: Seq<JsonV>,
)
    requires
        keys_distinct(base),
        entry_value(base, "policies"@) == Some(JsonV::Array(first)),
        0 <= j < overlay.len(),
        overlay[j] == ("policies"@, JsonV::Array(second)),
        forall|m: int| 0 <= m < overlay.len() && m != j ==> (#[trigger] overlay[m]).0 != "policies"@,
    ensures
        get_key(merge_v(JsonV::Object(base), JsonV::Object(overlay)), "policies"@) == Some(JsonV::Array(first + second)),
{
    lemma_merge_touched_once(base, overlay, "policies"@, j);
}

/// Where survivor `a` of the first `n` policies stands among them.
spec fn origin(ps: Seq<JsonV>, n: int, a: int) -> int
    decreases n,
{
    if n <= 0 {
        0
    } else if a < surviving(ps, n - 1).len() {
        origin(ps, n - 1, a)
    } else {
        n - 1
    }
}

proof fn lemma_surviving_members(ps: Seq<JsonV>, n: int, a: int)
    requires
        0 <= n <= ps.len(),
        0 <= a < surviving(ps, n).len(),
    ensures
        0 <= origin(ps, n, a) < n,
        survives(ps, origin(ps, n, a)),
        surviving(ps, n)[a] == ps[origin(ps, n, a)],
    decreases n,
{
    let prev = surviving(ps, n - 1);
    if a < prev.len() {
        lemma_surviving_members(ps, n - 1, a);
        assert(surviving(ps, n)[a] == prev[a]);
    } else {
        assert(surviving(ps, n)[a] == ps[n - 1]);
    }
}

proof fn lemma_surviving_unique(ps: Seq<JsonV>, n: int)
    requires
        0 <= n <= ps.len(),
    ensures
        !has_duplicate_names(surviving(ps, n)),
    decreases n,
{
    if n > 0 {
        lemma_surviving_unique(ps, n - 1);
        let prev = surviving(ps, n - 1);
        let cur = surviving(ps, n);
        if survives(ps, n - 1) {
            assert(cur == prev + seq![ps[n - 1]]);
            assert forall|a: int, b: int| 0 <= a < b < cur.len() && (#[trigger] policy_name_of(cur[a])) is Some
                implies policy_name_of(cur[a]) != #[trigger] policy_name_of(cur[b]) by {
                if b < prev.len() {
                    assert(cur[a] == prev[a] && cur[b] == prev[b]);
                } else {
                    assert(cur[a] == prev[a]);
                    assert(cur[b] == ps[n - 1]);
                    lemma_surviving_members(ps, n - 1, a);
                    let i = origin(ps, n - 1, a);
                    assert(policy_name_of(ps[i]) is Some);
                    assert(policy_name_of(ps[n - 1]) != policy_name_of(ps[i]));
                }
            }
        } else {
            assert(cur =~= prev);
        }
    }
}

/// After layers are merged, no two policies share a name: of a repeated name only the last
/// definition is kept.
pub proof fn law_dedup_leaves_unique_names(ps: Seq<JsonV>)
    ensures
        !has_duplicate_names(dedup_list(ps)),
{
    if has_duplicate_names(ps) {
        lemma_surviving_unique(ps, ps.len() as int);
    }
}

/// Storing `v` under `k` makes `k` hold `v` and leaves every other key's value as it was.
pub proof fn lemma_put_entry_values(es: Seq<(Seq<char>, JsonV)>, k: Seq<char>, v: JsonV, k2: Seq<char>)
    ensures
        entry_value(put_entry(es, k, v), k) == Some(v),
        k2 != k ==> entry_value(put_entry(es, k, v), k2) == entry_value(es, k2),
{
    lemma_key_index_in_range(es, k);
    lemma_key_index_in_range(es, k2);
    match key_index(es, k) {
        Some(i) => {
            let upd = es.update(i, (k, v));
            lemma_key_index_keys_same(es, upd, k);
            lemma_key_index_keys_same(es, upd, k2);
        },
        None => {
            assert(es.push((k, v)).drop_last() =~= es);
        },
    }
}

} // verus!
