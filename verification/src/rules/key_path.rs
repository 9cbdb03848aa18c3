//! Dot-separated key paths into nested mappings, and structural equality of values.

use vstd::prelude::*;

use crate::json::{find_key, jes, jv, jvs, key_index, lemma_jes, lemma_jvs, lemma_key_index_in_range, lemma_key_index_keys_same, put_entry, put_entry_value, Json, JsonEntry, JsonV};
use crate::text::{chars_of, push_char};

verus! {

/// The segments of a dot-separated path, as `str::split('.')` cuts it (an empty path is one
/// empty segment).
pub open spec fn split_dots(p: Seq<char>) -> Seq<Seq<char>>
    decreases p.len(),
{
    if p.len() == 0 {
        seq![Seq::empty()]
    } else {
        let r = split_dots(p.drop_last());
        if p.last() == '.' {
            r.push(Seq::empty())
        } else {
            r.update(r.len() - 1, r.last().push(p.last()))
        }
    }
}

/// A path always has at least one segment.
pub proof fn lemma_split_nonempty(p: Seq<char>)
    ensures
        split_dots(p).len() >= 1,
    decreases p.len(),
{
    if p.len() > 0 {
        lemma_split_nonempty(p.drop_last());
    }
}

/// Cut a dot-separated path into its segments.
pub fn split_path(path: &str) -> (segs: Vec<String>)
    ensures
        segs.deep_view() == split_dots(path@),
        segs@.len() >= 1,
{
    let cs = chars_of(path);
    let mut segs: Vec<String> = Vec::new();
    segs.push(String::new());
    let mut i: usize = 0;
    proof {
        assert(path@.take(0) =~= Seq::<char>::empty());
        assert(segs.deep_view() =~= seq![Seq::<char>::empty()]);
    }
    while i < cs.len()
        invariant
            cs@ == path@,
            i <= cs@.len(),
            segs@.len() >= 1,
            segs.deep_view() == split_dots(path@.take(i as int)),
        decreases cs@.len() - i,
    {
        let c = cs[i];
        let ghost before = segs.deep_view();
        proof {
            assert(path@.take(i + 1).drop_last() =~= path@.take(i as int));
            assert(path@.take(i + 1).last() == c);
            lemma_split_nonempty(path@.take(i as int));
        }
        if c == '.' {
            segs.push(String::new());
            proof { assert(segs.deep_view() =~= before.push(Seq::empty())); }
        } else {
            let mut last = segs.pop().unwrap();
            let ghost lv = last@;
            push_char(&mut last, c);
            segs.push(last);
            proof {
                assert(lv == before.last());
                assert(segs.deep_view() =~= before.update(before.len() - 1, before.last().push(c)));
            }
        }
        i = i + 1;
    }
    proof { assert(path@.take(cs@.len() as int) =~= path@); }
    segs
}

/// The value reached from `j` through the keys `segs`, each step into a mapping.
pub open spec fn get_path(j: JsonV, segs: Seq<Seq<char>>) -> Option<JsonV>
    decreases segs.len(),
{
    if segs.len() == 0 {
        Some(j)
    } else {
        match j {
            JsonV::Object(es) => match key_index(es, segs[0]) {
                Some(i) => get_path(es[i].1, segs.drop_first()),
                None => None,
            },
            _ => None,
        }
    }
}

/// The value at a dot-separated path, if every step finds a mapping with that key.
pub fn get_by_path<'a>(root: &'a Json, path: &str) -> (r: Option<&'a Json>)
    ensures
        match r {
            Some(v) => get_path(jv(*root), split_dots(path@)) == Some(jv(*v)),
            None => get_path(jv(*root), split_dots(path@)) is None,
        },
{
    let segs = split_path(path);
    let ghost sv = segs.deep_view();
    let mut current: &'a Json = root;
    let mut k: usize = 0;
    proof { assert(sv.skip(0) =~= sv); }
    while k < segs.len()
        invariant
            sv == segs.deep_view(),
            sv == split_dots(path@),
            sv.len() == segs@.len(),
            k <= segs@.len(),
            get_path(jv(*root), sv) == get_path(jv(*current), sv.skip(k as int)),
        decreases segs@.len() - k,
    {
        let ghost rest = sv.skip(k as int);
        proof {
            assert(rest[0] == sv[k as int]);
            assert(sv[k as int] == segs@[k as int]@);
            assert(rest.drop_first() =~= sv.skip(k + 1));
        }
        match current {
            Json::Object(es) => {
                proof { lemma_jes(es@); }
                match find_key(es, segs[k].as_str()) {
                    Some(i) => {
                        current = &es[i].value;
                    },
                    None => return None,
                }
            },
            _ => return None,
        }
        k = k + 1;
    }
    proof { assert(sv.skip(segs@.len() as int) =~= Seq::<Seq<char>>::empty()); }
    Some(current)
}

/// `j` with `v` stored at the path `segs`: each step but the last must find a mapping or no
/// entry (a missing one is created as an empty mapping), the last step must be in a mapping;
/// `None` where a step meets something else.
pub open spec fn set_path(j: JsonV, segs: Seq<Seq<char>>, v: JsonV) -> Option<JsonV>
    decreases segs.len(),
{
    match j {
        JsonV::Object(es) => if segs.len() <= 1 {
            Some(JsonV::Object(put_entry(es, if segs.len() == 1 { segs[0] } else { Seq::empty() }, v)))
        } else {
            match key_index(es, segs[0]) {
                Some(i) => match set_path(es[i].1, segs.drop_first(), v) {
                    Some(c) => Some(JsonV::Object(es.update(i, (segs[0], c)))),
                    None => None,
                },
                None => match set_path(JsonV::Object(Seq::empty()), segs.drop_first(), v) {
                    Some(c) => Some(JsonV::Object(es.push((segs[0], c)))),
                    None => None,
                },
            }
        },
        _ => None,
    }
}

fn set_owned(j: Json, segs: &Vec<String>, k: usize, v: Json) -> (r: (Json, bool))
    requires
        k < segs@.len(),
    ensures
        match set_path(jv(j), segs.deep_view().skip(k as int), jv(v)) {
            Some(n) => r.1 && jv(r.0) == n,
            None => !r.1 && jv(r.0) == jv(j),
        },
    decreases segs@.len() - k,
{
    let ghost sv = segs.deep_view().skip(k as int);
    proof {
        assert(sv[0] == segs@[k as int]@);
        assert(sv.drop_first() =~= segs.deep_view().skip(k + 1));
    }
    let ghost vv = jv(v);
    match j {
        Json::Object(es) => {
            proof { lemma_jes(es@); }
            let mut es = es;
            let ghost before = jes(es@);
            if k >= segs.len() - 1 {
                put_entry_value(&mut es, segs[k].as_str(), v);
                (Json::Object(es), true)
            } else {
                match find_key(&es, segs[k].as_str()) {
                    Some(i) => {
                        proof { lemma_key_index_in_range(before, sv[0]); }
                        let ghost all = es@;
                        let e = es.remove(i);
                        proof { assert(e == all[i as int]); }
                        let (c, ok) = set_owned(e.value, segs, k + 1, v);
                        let ghost cv = jv(c);
                        es.insert(i, JsonEntry { key: e.key, value: c });
                        proof {
                            lemma_jes(es@);
                            assert(jes(es@) =~= before.update(i as int, (before[i as int].0, cv)));
                            if !ok {
                                assert(jes(es@) =~= before);
                            }
                        }
                        (Json::Object(es), ok)
                    },
                    None => {
                        let (c, ok) = set_owned(Json::Object(Vec::new()), segs, k + 1, v);
                        proof {
                            assert(jes(Seq::<JsonEntry>::empty()) =~= Seq::<(Seq<char>, JsonV)>::empty());
                        }
                        let ghost cv = jv(c);
                        if ok {
                            es.push(JsonEntry { key: segs[k].clone(), value: c });
                            proof {
                                lemma_jes(es@);
                                assert(jes(es@) =~= before.push((sv[0], cv)));
                            }
                            (Json::Object(es), true)
                        } else {
                            (Json::Object(es), false)
                        }
                    },
                }
            }
        },
        other => (other, false),
    }
}

/// Store `value` at a dot-separated path, creating missing intermediate mappings. Returns
/// `false`, leaving `root` as it was, where a step meets something other than a mapping.
pub fn set_by_path(root: &mut Json, path: &str, value: Json) -> (ok: bool)
    ensures
        match set_path(jv(*old(root)), split_dots(path@), jv(value)) {
            Some(n) => ok && jv(*final(root)) == n,
            None => !ok && jv(*final(root)) == jv(*old(root)),
        },
{
    let segs = split_path(path);
    proof { assert(segs.deep_view().skip(0) =~= segs.deep_view()); }
    let mut taken = Json::Null;
    std::mem::swap(&mut taken, root);
    let (updated, ok) = set_owned(taken, &segs, 0, value);
    *root = updated;
    ok
}

/// Equality of values as JSON compares them: mappings with the same keys holding equal values,
/// in any order; lists item by item; numbers by their text.
pub open spec fn json_eq(a: JsonV, b: JsonV) -> bool
    decreases a, 0nat,
{
    match a {
        JsonV::Null => b is Null,
        JsonV::Bool(x) => b matches JsonV::Bool(y) && x == y,
        JsonV::Number(x) => b matches JsonV::Number(y) && x == y,
        JsonV::Str(x) => b matches JsonV::Str(y) && x == y,
        JsonV::Array(xs) => b matches JsonV::Array(ys) && xs.len() == ys.len() && items_eq(xs, ys, xs.len()),
        JsonV::Object(es) => b matches JsonV::Object(fs) && es.len() == fs.len() && entries_eq(es, fs, es.len()),
    }
}

/// The first `n` items of `xs` equal those of `ys`.
pub open spec fn items_eq(xs: Seq<JsonV>, ys: Seq<JsonV>, n: nat) -> bool
    decreases xs, n,
{
    if n == 0 {
        true
    } else if n > xs.len() {
        false
    } else {
        items_eq(xs, ys, (n - 1) as nat) && json_eq(xs[n - 1], ys[n - 1])
    }
}

/// Each of the first `n` entries of `es` has its key in `fs`, with an equal value.
pub open spec fn entries_eq(es: Seq<(Seq<char>, JsonV)>, fs: Seq<(Seq<char>, JsonV)>, n: nat) -> bool
    decreases es, n,
{
    if n == 0 {
        true
    } else if n > es.len() {
        false
    } else {
        entries_eq(es, fs, (n - 1) as nat) && match key_index(fs, es[n - 1].0) {
            Some(i) => {
                proof {
                    assert(decreases_to!(es => es[n - 1]));
                    assert(decreases_to!(es[n - 1] => es[n - 1].1));
                }
                json_eq(es[n - 1].1, fs[i].1)
            },
            None => false,
        }
    }
}

/// Whether two values are equal as JSON values (see [`json_eq`]).
pub fn json_equal(a: &Json, b: &Json) -> (r: bool)
    ensures
        r == json_eq(jv(*a), jv(*b)),
    decreases a,
{
    match (a, b) {
        (Json::Null, Json::Null) => true,
        (Json::Bool(x), Json::Bool(y)) => *x == *y,
        (Json::Number(x), Json::Number(y)) => crate::text::str_eq(x.as_str(), y.as_str()),
        (Json::Str(x), Json::Str(y)) => crate::text::str_eq(x.as_str(), y.as_str()),
        (Json::Array(xs), Json::Array(ys)) => {
            proof {
                lemma_jvs(xs@);
                lemma_jvs(ys@);
            }
            if xs.len() != ys.len() {
                return false;
            }
            proof { assert(json_eq(jv(*a), jv(*b)) == items_eq(jvs(xs@), jvs(ys@), xs@.len())); }
            let mut i: usize = 0;
            while i < xs.len()
                invariant
                    *a == Json::Array(*xs),
                    *b == Json::Array(*ys),
                    json_eq(jv(*a), jv(*b)) == items_eq(jvs(xs@), jvs(ys@), xs@.len()),
                    xs@.len() == ys@.len(),
                    jvs(xs@).len() == xs@.len(),
                    jvs(ys@).len() == ys@.len(),
                    forall|k: int| 0 <= k < xs@.len() ==> #[trigger] jvs(xs@)[k] == jv(xs@[k]),
                    forall|k: int| 0 <= k < ys@.len() ==> #[trigger] jvs(ys@)[k] == jv(ys@[k]),
                    i <= xs@.len(),
                    items_eq(jvs(xs@), jvs(ys@), i as nat),
                decreases xs@.len() - i,
            {
                proof {
                    assert(decreases_to!(*a => a->Array_0));
                    assert(decreases_to!(*xs => xs@));
                    assert(decreases_to!(xs@ => xs@[i as int]));
                }
                if !json_equal(&xs[i], &ys[i]) {
                    proof { lemma_items_eq_stops(jvs(xs@), jvs(ys@), (i + 1) as nat, xs@.len()); }
                    return false;
                }
                i = i + 1;
            }
            true
        },
        (Json::Object(es), Json::Object(fs)) => {
            proof {
                lemma_jes(es@);
                lemma_jes(fs@);
            }
            if es.len() != fs.len() {
                return false;
            }
            proof { assert(json_eq(jv(*a), jv(*b)) == entries_eq(jes(es@), jes(fs@), es@.len())); }
            let mut i: usize = 0;
            while i < es.len()
                invariant
                    *a == Json::Object(*es),
                    *b == Json::Object(*fs),
                    json_eq(jv(*a), jv(*b)) == entries_eq(jes(es@), jes(fs@), es@.len()),
                    es@.len() == fs@.len(),
                    jes(es@).len() == es@.len(),
                    jes(fs@).len() == fs@.len(),
                    forall|k: int| 0 <= k < es@.len() ==> #[trigger] jes(es@)[k] == (es@[k].key@, jv(es@[k].value)),
                    forall|k: int| 0 <= k < fs@.len() ==> #[trigger] jes(fs@)[k] == (fs@[k].key@, jv(fs@[k].value)),
                    i <= es@.len(),
                    entries_eq(jes(es@), jes(fs@), i as nat),
                decreases es@.len() - i,
            {
                proof {
                    assert(decreases_to!(*a => a->Object_0));
                    assert(decreases_to!(*es => es@));
                    assert(decreases_to!(es@ => es@[i as int]));
                    assert(decreases_to!(es@[i as int] => es@[i as int].value));
                }
                match find_key(fs, es[i].key.as_str()) {
                    Some(j) => {
                        if !json_equal(&es[i].value, &fs[j].value) {
                            proof { lemma_entries_eq_stops(jes(es@), jes(fs@), (i + 1) as nat, es@.len()); }
                            return false;
                        }
                    },
                    None => {
                        proof { lemma_entries_eq_stops(jes(es@), jes(fs@), (i + 1) as nat, es@.len()); }
                        return false;
                    },
                }
                i = i + 1;
            }
            true
        },
        _ => false,
    }
}

proof fn lemma_items_eq_stops(xs: Seq<JsonV>, ys: Seq<JsonV>, n: nat, m: nat)
    requires
        n <= m <= xs.len(),
        !items_eq(xs, ys, n),
    ensures
        !items_eq(xs, ys, m),
    decreases m - n,
{
    if n < m {
        lemma_items_eq_stops(xs, ys, n, (m - 1) as nat);
    }
}

proof fn lemma_entries_eq_stops(es: Seq<(Seq<char>, JsonV)>, fs: Seq<(Seq<char>, JsonV)>, n: nat, m: nat)
    requires
        n <= m <= es.len(),
        !entries_eq(es, fs, n),
    ensures
        !entries_eq(es, fs, m),
    decreases m - n,
{
    if n < m {
        lemma_entries_eq_stops(es, fs, n, (m - 1) as nat);
    }
}

proof fn lemma_key_index_pushed(es: Seq<(Seq<char>, JsonV)>, k: Seq<char>, v: JsonV)
    requires
        key_index(es, k) is None,
    ensures
        key_index(es.push((k, v)), k) == Some(es.len() as int),
{
    assert(es.push((k, v)).drop_last() =~= es);
}

proof fn lemma_put_entry_found(es: Seq<(Seq<char>, JsonV)>, k: Seq<char>, v: JsonV)
    ensures
        key_index(put_entry(es, k, v), k) matches Some(i) && 0 <= i < put_entry(es, k, v).len()
            && put_entry(es, k, v)[i].1 == v,
{
    lemma_key_index_in_range(es, k);
    match key_index(es, k) {
        Some(i) => {
            lemma_key_index_keys_same(es, es.update(i, (k, v)), k);
        },
        None => {
            lemma_key_index_pushed(es, k, v);
        },
    }
}

/// Reading a path after storing a value there gives that value back.
pub proof fn law_get_after_set(j: JsonV, segs: Seq<Seq<char>>, v: JsonV)
    requires
        segs.len() >= 1,
        set_path(j, segs, v) is Some,
    ensures
        get_path(set_path(j, segs, v)->0, segs) == Some(v),
    decreases segs.len(),
{
    let es = j->Object_0;
    let k = segs[0];
    let rest = segs.drop_first();
    if segs.len() == 1 {
        lemma_put_entry_found(es, k, v);
        let p = put_entry(es, k, v);
        let i = key_index(p, k)->0;
        assert(rest.len() == 0);
        assert(get_path(p[i].1, rest) == Some(p[i].1));
    } else {
        lemma_key_index_in_range(es, k);
        match key_index(es, k) {
            Some(i) => {
                let c = set_path(es[i].1, rest, v)->0;
                law_get_after_set(es[i].1, rest, v);
                lemma_key_index_keys_same(es, es.update(i, (k, c)), k);
            },
            None => {
                let c = set_path(JsonV::Object(Seq::empty()), rest, v)->0;
                law_get_after_set(JsonV::Object(Seq::empty()), rest, v);
                lemma_key_index_pushed(es, k, c);
            },
        }
    }
}

} // verus!
