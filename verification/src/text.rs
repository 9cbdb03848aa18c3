//! Small string utilities shared by the report renderers.

use vstd::prelude::*;
use vstd::string::*;

verus! {

/// Decimal digits of a natural number, most significant first.
pub open spec fn dec(n: nat) -> Seq<char>
    decreases n,
{
    if n < 10 {
        seq![digit_char(n)]
    } else {
        dec(n / 10).push(digit_char(n % 10))
    }
}

/// The ASCII digit for a value below ten.
pub open spec fn digit_char(d: nat) -> char {
    if d == 0 { '0' }
    else if d == 1 { '1' }
    else if d == 2 { '2' }
    else if d == 3 { '3' }
    else if d == 4 { '4' }
    else if d == 5 { '5' }
    else if d == 6 { '6' }
    else if d == 7 { '7' }
    else if d == 8 { '8' }
    else { '9' }
}

fn digit_str(d: usize) -> (s: &'static str)
    requires
        d < 10,
    ensures
        s@ == seq![digit_char(d as nat)],
{
    proof {
        reveal_strlit("0");
        reveal_strlit("1");
        reveal_strlit("2");
        reveal_strlit("3");
        reveal_strlit("4");
        reveal_strlit("5");
        reveal_strlit("6");
        reveal_strlit("7");
        reveal_strlit("8");
        reveal_strlit("9");
    }
    if d == 0 { "0" }
    else if d == 1 { "1" }
    else if d == 2 { "2" }
    else if d == 3 { "3" }
    else if d == 4 { "4" }
    else if d == 5 { "5" }
    else if d == 6 { "6" }
    else if d == 7 { "7" }
    else if d == 8 { "8" }
    else { "9" }
}

/// Append the decimal rendering of `n` to `out`.
pub fn push_dec(out: &mut String, n: usize)
    ensures
        final(out)@ == old(out)@ + dec(n as nat),
    decreases n,
{
    if n < 10 {
        out.append(digit_str(n));
    } else {
        push_dec(out, n / 10);
        out.append(digit_str(n % 10));
    }
}

/// The decimal rendering of `n` as a fresh string.
pub fn usize_to_string(n: usize) -> (s: String)
    ensures
        s@ == dec(n as nat),
{
    let mut s = String::new();
    push_dec(&mut s, n);
    s
}

/// The parts separated by `sep`, as `[..].join(sep)` renders them.
pub open spec fn join(parts: Seq<Seq<char>>, sep: Seq<char>) -> Seq<char>
    decreases parts.len(),
{
    if parts.len() == 0 {
        Seq::empty()
    } else if parts.len() == 1 {
        parts[0]
    } else {
        join(parts.drop_last(), sep) + sep + parts.last()
    }
}

/// Join the strings with `sep` between consecutive ones.
pub fn join_strings(parts: &Vec<String>, sep: &str) -> (s: String)
    ensures
        s@ == join(parts.deep_view(), sep@),
{
    let mut s = String::new();
    for i in 0..parts.len()
        invariant
            s@ == join(parts.deep_view().take(i as int), sep@),
    {
        proof {
            let t = parts.deep_view().take(i + 1);
            assert(t.drop_last() =~= parts.deep_view().take(i as int));
        }
        if i > 0 {
            s.append(sep);
        }
        s.append(parts[i].as_str());
    }
    proof { assert(parts.deep_view().take(parts.len() as int) =~= parts.deep_view()); }
    s
}

/// Whether two string slices hold the same characters.
pub(crate) fn str_eq(a: &str, b: &str) -> (eq: bool)
    ensures
        eq == (a@ == b@),
{
    let x = a.to_owned();
    let y = b.to_owned();
    x == y
}

/// Lexicographic order on strings by code point, as `str`'s `Ord` compares them.
pub open spec fn lex_lt(a: Seq<char>, b: Seq<char>) -> bool
    decreases a.len(),
{
    if a.len() == 0 {
        b.len() > 0
    } else if b.len() == 0 {
        false
    } else if a[0] == b[0] {
        lex_lt(a.drop_first(), b.drop_first())
    } else {
        (a[0] as u32) < (b[0] as u32)
    }
}

proof fn lemma_lex_lt_skip(a: Seq<char>, b: Seq<char>, i: int)
    requires
        0 <= i <= a.len(),
        i <= b.len(),
        a.take(i) == b.take(i),
    ensures
        lex_lt(a, b) == lex_lt(a.skip(i), b.skip(i)),
    decreases i,
{
    if i > 0 {
        assert(a[0] == a.take(i)[0]);
        assert(b[0] == b.take(i)[0]);
        assert(a.drop_first().take(i - 1) =~= a.take(i).drop_first());
        assert(b.drop_first().take(i - 1) =~= b.take(i).drop_first());
        lemma_lex_lt_skip(a.drop_first(), b.drop_first(), i - 1);
        assert(a.drop_first().skip(i - 1) =~= a.skip(i));
        assert(b.drop_first().skip(i - 1) =~= b.skip(i));
    } else {
        assert(a.skip(0) =~= a);
        assert(b.skip(0) =~= b);
    }
}

/// `a < b` on string slices, comparing code points in turn (the order of `str`'s `Ord`, as
/// UTF-8 byte order follows code-point order).
pub(crate) fn str_lt(a: &str, b: &str) -> (lt: bool)
    ensures
        lt == lex_lt(a@, b@),
{
    let n = a.unicode_len();
    let m = b.unicode_len();
    let mut i: usize = 0;
    while i < n && i < m
        invariant
            n == a@.len(),
            m == b@.len(),
            i <= n,
            i <= m,
            a@.take(i as int) == b@.take(i as int),
        decreases n - i,
    {
        let x = a.get_char(i);
        let y = b.get_char(i);
        if x != y {
            proof {
                lemma_lex_lt_skip(a@, b@, i as int);
                assert(a@.skip(i as int)[0] == x);
                assert(b@.skip(i as int)[0] == y);
            }
            return (x as u32) < (y as u32);
        }
        proof {
            assert(a@.take(i + 1) =~= a@.take(i as int).push(x));
            assert(b@.take(i + 1) =~= b@.take(i as int).push(y));
        }
        i = i + 1;
    }
    proof {
        lemma_lex_lt_skip(a@, b@, i as int);
        assert(a@.skip(i as int).len() == n - i);
        assert(b@.skip(i as int).len() == m - i);
    }
    i < m
}


/// The first position at or after `from` where `pat` occurs in `s`, as `str::find` reports it
/// (counted in characters).
pub open spec fn find_from(s: Seq<char>, pat: Seq<char>, from: int) -> Option<int>
    decreases s.len() - from,
{
    if from < 0 || from + pat.len() > s.len() {
        None
    } else if pat.len() == 0 || s.subrange(from, from + pat.len()) == pat {
        Some(from)
    } else {
        find_from(s, pat, from + 1)
    }
}

/// Where `pat` first occurs in `s`, if it does.
pub fn find_str(s: &str, pat: &str) -> (r: Option<usize>)
    ensures
        match r {
            Some(i) => {
                &&& find_from(s@, pat@, 0) == Some(i as int)
                &&& i + pat@.len() <= s@.len()
                &&& s@.subrange(i as int, i + pat@.len()) == pat@
            },
            None => find_from(s@, pat@, 0) is None,
        },
        s@.len() <= usize::MAX,
{
    let n = s.unicode_len();
    let m = pat.unicode_len();
    let mut i: usize = 0;
    while i <= n
        invariant
            n == s@.len(),
            m == pat@.len(),
            find_from(s@, pat@, 0) == find_from(s@, pat@, i as int),
        decreases n + 1 - i,
    {
        if m > n - i {
            return None;
        }
        if m == 0 {
            return Some(i);
        }
        let window = s.substring_char(i, i + m);
        if str_eq(window, pat) {
            return Some(i);
        }
        i = i + 1;
    }
    None
}

/// The characters of `s` from position `from` on.
pub fn tail_str(s: &str, from: usize) -> (t: &str)
    requires
        from <= s@.len(),
    ensures
        t@ == s@.subrange(from as int, s@.len() as int),
{
    let n = s.unicode_len();
    s.substring_char(from, n)
}


/// What `format!("{:?}", s)` renders for a string slice: the text quoted, with escapes.
pub uninterp spec fn str_debug(s: Seq<char>) -> Seq<char>;

/// The `Debug` rendering of a string slice. Trusted: std's `Debug for str`.
#[verifier::external_body]
pub(crate) fn debug_str(s: &str) -> (r: String)
    ensures
        r@ == str_debug(s@),
{
    format!("{:?}", s)
}

/// Whether `needle` occurs in `hay` (std's `str::contains` with a string pattern).
pub open spec fn contains(hay: Seq<char>, needle: Seq<char>) -> bool {
    find_from(hay, needle, 0) is Some
}

/// Whether `needle` occurs in `hay`.
pub fn str_contains(hay: &str, needle: &str) -> (b: bool)
    ensures
        b == contains(hay@, needle@),
{
    find_str(hay, needle).is_some()
}


/// `a` followed by `b` and `c`, as a fresh string.
pub fn concat3(a: &str, b: &str, c: &str) -> (s: String)
    ensures
        s@ == a@ + b@ + c@,
{
    let mut s = String::new();
    s.append(a);
    s.append(b);
    s.append(c);
    s
}

/// How `Display` renders a boolean.
pub open spec fn bool_text(b: bool) -> Seq<char> {
    if b { "true"@ } else { "false"@ }
}

/// How `Display` renders a boolean.
pub fn bool_str(b: bool) -> (s: &'static str)
    ensures
        s@ == bool_text(b),
{
    if b { "true" } else { "false" }
}

/// The characters of `s`, in order.
pub fn chars_of(s: &str) -> (v: Vec<char>)
    ensures
        v@ == s@,
{
    let n = s.unicode_len();
    let mut v: Vec<char> = Vec::new();
    for i in 0..n
        invariant
            n == s@.len(),
            v@ == s@.take(i as int),
    {
        v.push(s.get_char(i));
        proof { assert(s@.take(i + 1) =~= s@.take(i as int).push(s@[i as int])); }
    }
    proof { assert(s@.take(n as int) =~= s@); }
    v
}



/// Append one character (std's `String::push`).
#[verifier::external_body]
pub(crate) fn push_char(s: &mut String, c: char)
    ensures
        final(s)@ == old(s)@.push(c),
{
    s.push(c)
}

/// No string is below itself.
pub proof fn lemma_lex_irreflexive(a: Seq<char>)
    ensures
        !lex_lt(a, a),
    decreases a.len(),
{
    if a.len() > 0 {
        lemma_lex_irreflexive(a.drop_first());
    }
}

/// Of two different strings, one is below the other.
pub proof fn lemma_lex_total(a: Seq<char>, b: Seq<char>)
    requires
        a != b,
    ensures
        lex_lt(a, b) || lex_lt(b, a),
    decreases a.len(),
{
    if a.len() > 0 && b.len() > 0 && a[0] == b[0] {
        if a.drop_first() == b.drop_first() {
            assert(a =~= seq![a[0]] + a.drop_first());
            assert(b =~= seq![b[0]] + b.drop_first());
        }
        lemma_lex_total(a.drop_first(), b.drop_first());
    } else if a.len() > 0 && b.len() > 0 {
        if (a[0] as u32) == (b[0] as u32) {
            vstd::utf8::char_u32_cast(a[0], a[0] as u32);
            vstd::utf8::char_u32_cast(b[0], b[0] as u32);
        }
    } else if a.len() == 0 && b.len() == 0 {
        assert(a =~= b);
    }
}

/// The order is transitive.
pub proof fn lemma_lex_transitive(a: Seq<char>, b: Seq<char>, c: Seq<char>)
    requires
        lex_lt(a, b),
        lex_lt(b, c),
    ensures
        lex_lt(a, c),
    decreases a.len(),
{
    if a.len() > 0 && b.len() > 0 && c.len() > 0 && a[0] == b[0] && b[0] == c[0] {
        lemma_lex_transitive(a.drop_first(), b.drop_first(), c.drop_first());
    }
}

/// The order is asymmetric.
pub proof fn lemma_lex_asymmetric(a: Seq<char>, b: Seq<char>)
    requires
        lex_lt(a, b),
    ensures
        !lex_lt(b, a),
{
    if lex_lt(b, a) {
        lemma_lex_transitive(a, b, a);
        lemma_lex_irreflexive(a);
    }
}

/// `s` with `x` put in its place by the string order, unless it is there already.
pub open spec fn insert_sorted(s: Seq<Seq<char>>, x: Seq<char>) -> Seq<Seq<char>>
    decreases s.len(),
{
    if s.len() == 0 {
        seq![x]
    } else if s[0] == x {
        s
    } else if lex_lt(x, s[0]) {
        seq![x] + s
    } else {
        seq![s[0]] + insert_sorted(s.drop_first(), x)
    }
}

/// The names, each once, in ascending string order.
pub open spec fn sorted_names(names: Seq<Seq<char>>) -> Seq<Seq<char>>
    decreases names.len(),
{
    if names.len() == 0 {
        Seq::empty()
    } else {
        insert_sorted(sorted_names(names.drop_last()), names.last())
    }
}

/// Strictly ascending in the string order.
pub open spec fn strictly_sorted(s: Seq<Seq<char>>) -> bool {
    forall|i: int, j: int| 0 <= i < j < s.len() ==> lex_lt(#[trigger] s[i], #[trigger] s[j])
}

proof fn lemma_insert_sorted_at(s: Seq<Seq<char>>, x: Seq<char>, i: int)
    requires
        0 <= i <= s.len(),
        forall|k: int| 0 <= k < i ==> lex_lt(#[trigger] s[k], x),
        i == s.len() || !lex_lt(s[i], x),
    ensures
        insert_sorted(s, x) == s.take(i) + if i < s.len() && s[i] == x { s.skip(i) } else { seq![x] + s.skip(i) },
    decreases i,
{
    if i == 0 {
        if s.len() > 0 && s[0] != x {
            lemma_lex_total(s[0], x);
        }
        assert(s.skip(0) =~= s);
        assert(s.take(0) =~= Seq::<Seq<char>>::empty());
        if s.len() == 0 {
            assert(seq![x] + s.skip(0) =~= seq![x]);
        }
    } else {
        lemma_lex_irreflexive(x);
        assert(lex_lt(s[0], x));
        lemma_lex_asymmetric(s[0], x);
        let r = s.drop_first();
        assert forall|k: int| 0 <= k < i - 1 implies lex_lt(#[trigger] r[k], x) by {
            assert(r[k] == s[k + 1]);
        }
        if i < s.len() {
            assert(r[i - 1] == s[i]);
        }
        lemma_insert_sorted_at(r, x, i - 1);
        assert(r.skip(i - 1) =~= s.skip(i));
        assert(seq![s[0]] + r.take(i - 1) =~= s.take(i));
        assert(insert_sorted(s, x) == seq![s[0]] + insert_sorted(r, x));
        let tail = if i < s.len() && s[i] == x { s.skip(i) } else { seq![x] + s.skip(i) };
        assert(seq![s[0]] + (r.take(i - 1) + tail) =~= s.take(i) + tail);
    }
}

/// Put `x` into the ascending list `names`, unless it is there already.
pub fn insert_name(names: &mut Vec<String>, x: &str)
    ensures
        final(names).deep_view() == insert_sorted(old(names).deep_view(), x@),
{
    let ghost s = names.deep_view();
    let mut i: usize = 0;
    while i < names.len() && str_lt(names[i].as_str(), x)
        invariant
            s == names.deep_view(),
            s.len() == names@.len(),
            i <= names@.len(),
            forall|k: int| 0 <= k < i ==> lex_lt(#[trigger] s[k], x@),
        decreases names@.len() - i,
    {
        proof { assert(s[i as int] == names@[i as int]@); }
        i = i + 1;
    }
    proof {
        if i < names@.len() {
            assert(s[i as int] == names@[i as int]@);
        }
        lemma_insert_sorted_at(s, x@, i as int);
    }
    if i < names.len() && str_eq(names[i].as_str(), x) {
        proof { assert(s.take(i as int) + s.skip(i as int) =~= s); }
        return;
    }
    names.insert(i, x.to_owned());
    proof { assert(names.deep_view() =~= s.take(i as int) + (seq![x@] + s.skip(i as int))); }
}

proof fn lemma_insert_sorted_keeps(s: Seq<Seq<char>>, x: Seq<char>)
    requires
        strictly_sorted(s),
    ensures
        strictly_sorted(insert_sorted(s, x)),
        forall|y: Seq<char>| #[trigger] insert_sorted(s, x).contains(y) <==> (s.contains(y) || y == x),
    decreases s.len(),
{
    let t = insert_sorted(s, x);
    if s.len() == 0 {
        assert(t =~= seq![x]);
        assert forall|y: Seq<char>| t.contains(y) <==> (s.contains(y) || y == x) by {
            if y == x {
                assert(t[0] == x);
            }
        }
    } else if s[0] == x {
        assert forall|y: Seq<char>| t.contains(y) <==> (s.contains(y) || y == x) by {
            if y == x {
                assert(s[0] == y);
            }
        }
    } else if lex_lt(x, s[0]) {
        assert forall|i: int, j: int| 0 <= i < j < t.len() implies lex_lt(#[trigger] t[i], #[trigger] t[j]) by {
            if i == 0 {
                assert(t[j] == s[j - 1]);
                if j - 1 > 0 {
                    lemma_lex_transitive(x, s[0], s[j - 1]);
                }
            } else {
                assert(t[i] == s[i - 1] && t[j] == s[j - 1]);
            }
        }
        assert forall|y: Seq<char>| t.contains(y) <==> (s.contains(y) || y == x) by {
            if y == x {
                assert(t[0] == x);
            }
            if s.contains(y) {
                let k = choose|k: int| 0 <= k < s.len() && s[k] == y;
                assert(t[k + 1] == y);
            }
            if t.contains(y) && y != x {
                let k = choose|k: int| 0 <= k < t.len() && t[k] == y;
                assert(s[k - 1] == y);
            }
        }
    } else {
        let r = s.drop_first();
        assert forall|i: int, j: int| 0 <= i < j < r.len() implies lex_lt(#[trigger] r[i], #[trigger] r[j]) by {
            assert(r[i] == s[i + 1] && r[j] == s[j + 1]);
        }
        lemma_insert_sorted_keeps(r, x);
        let u = insert_sorted(r, x);
        lemma_lex_total(x, s[0]);
        assert(t == seq![s[0]] + u);
        assert forall|k: int| 0 <= k < u.len() implies lex_lt(s[0], #[trigger] u[k]) by {
            assert(u.contains(u[k]));
            if u[k] == x {
            } else {
                assert(r.contains(u[k]));
                let m = choose|m: int| 0 <= m < r.len() && r[m] == u[k];
                assert(s[m + 1] == u[k]);
            }
        }
        assert forall|i: int, j: int| 0 <= i < j < t.len() implies lex_lt(#[trigger] t[i], #[trigger] t[j]) by {
            if i == 0 {
                assert(t[j] == u[j - 1]);
            } else {
                assert(t[i] == u[i - 1] && t[j] == u[j - 1]);
            }
        }
        assert forall|y: Seq<char>| t.contains(y) <==> (s.contains(y) || y == x) by {
            if t.contains(y) {
                let k = choose|k: int| 0 <= k < t.len() && t[k] == y;
                if k > 0 {
                    assert(u[k - 1] == y);
                    assert(u.contains(y));
                    if y != x {
                        assert(r.contains(y));
                        let m = choose|m: int| 0 <= m < r.len() && r[m] == y;
                        assert(s[m + 1] == y);
                    }
                }
            }
            if s.contains(y) {
                let k = choose|k: int| 0 <= k < s.len() && s[k] == y;
                if k == 0 {
                    assert(t[0] == y);
                } else {
                    assert(r[k - 1] == y);
                    assert(r.contains(y));
                    assert(u.contains(y));
                    let m = choose|m: int| 0 <= m < u.len() && u[m] == y;
                    assert(t[m + 1] == y);
                }
            }
            if y == x {
                assert(u.contains(y));
                let m = choose|m: int| 0 <= m < u.len() && u[m] == y;
                assert(t[m + 1] == y);
            }
        }
    }
}

/// The sorted names are in strictly ascending order, and they are exactly the given names.
pub proof fn law_sorted_names(names: Seq<Seq<char>>)
    ensures
        strictly_sorted(sorted_names(names)),
        forall|y: Seq<char>| #[trigger] sorted_names(names).contains(y) <==> names.contains(y),
    decreases names.len(),
{
    if names.len() > 0 {
        let d = names.drop_last();
        law_sorted_names(d);
        lemma_insert_sorted_keeps(sorted_names(d), names.last());
        assert forall|y: Seq<char>| sorted_names(names).contains(y) <==> names.contains(y) by {
            if d.contains(y) {
                let k = choose|k: int| 0 <= k < d.len() && d[k] == y;
                assert(names[k] == y);
            }
            if names.contains(y) && y != names.last() {
                let k = choose|k: int| 0 <= k < names.len() && names[k] == y;
                assert(d[k] == y);
            }
            if y == names.last() {
                assert(names[names.len() - 1] == y);
            }
        }
    }
}

/// Unicode's `White_Space` characters, the ones `char::is_whitespace` accepts.
pub open spec fn is_ws(c: char) -> bool {
    let u = c as u32;
    (0x09 <= u && u <= 0x0d) || u == 0x20 || u == 0x85 || u == 0xa0 || u == 0x1680
        || (0x2000 <= u && u <= 0x200a) || u == 0x2028 || u == 0x2029 || u == 0x202f
        || u == 0x205f || u == 0x3000
}

/// Whether `c` is a Unicode white-space character (what `char::is_whitespace` answers).
pub fn is_whitespace_char(c: char) -> (b: bool)
    ensures
        b == is_ws(c),
{
    let u = c as u32;
    (0x09 <= u && u <= 0x0d) || u == 0x20 || u == 0x85 || u == 0xa0 || u == 0x1680
        || (0x2000 <= u && u <= 0x200a) || u == 0x2028 || u == 0x2029 || u == 0x202f
        || u == 0x205f || u == 0x3000
}

/// `s` without the white space it ends with (`str::trim_end`).
pub open spec fn trim_end(s: Seq<char>) -> Seq<char>
    decreases s.len(),
{
    if s.len() > 0 && is_ws(s.last()) {
        trim_end(s.drop_last())
    } else {
        s
    }
}

/// `s` without the white space it ends with.
pub fn trim_end_str(s: &str) -> (r: &str)
    ensures
        r@ == trim_end(s@),
{
    let cs = chars_of(s);
    let mut end = cs.len();
    proof { assert(s@.take(end as int) =~= s@); }
    while end > 0 && is_whitespace_char(cs[end - 1])
        invariant
            cs@ == s@,
            end <= cs@.len(),
            trim_end(s@) == trim_end(s@.take(end as int)),
        decreases end,
    {
        proof { assert(s@.take(end as int).drop_last() =~= s@.take(end - 1)); }
        end = end - 1;
    }
    s.substring_char(0, end)
}

/// Whether `s` holds nothing but white space (or nothing at all).
pub open spec fn is_blank(s: Seq<char>) -> bool {
    forall|i: int| 0 <= i < s.len() ==> is_ws(#[trigger] s[i])
}

fn all_whitespace(s: &str) -> (b: bool)
    ensures
        b == is_blank(s@),
{
    let cs = chars_of(s);
    for i in 0..cs.len()
        invariant
            cs@ == s@,
            forall|k: int| 0 <= k < i ==> is_ws(#[trigger] s@[k]),
    {
        if !is_whitespace_char(cs[i]) {
            return false;
        }
    }
    true
}

/// An optional text value with an empty or white-space-only text read as unset, so that a
/// blank field never stands for a real value.
pub fn blank_as_unset(v: Option<String>) -> (r: Option<String>)
    ensures
        r == (match v {
            Some(s) => if is_blank(s@) { None } else { Some(s) },
            None => None,
        }),
{
    match v {
        Some(s) => if all_whitespace(s.as_str()) { None } else { Some(s) },
        None => None,
    }
}

} // verus!
