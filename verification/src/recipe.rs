//! Recipes: named, parameterised policy templates, and how a policy that names one is expanded.

use vstd::prelude::*;
use vstd::string::*;

use crate::error::CoreError;
use crate::json::{clone_json, find_key, jes, jv, jvs, key_index, lemma_jes, lemma_jvs, entry_value, lemma_key_index_in_range, lemma_key_index_keys_same, lemma_put_entry_values, put_entry, put_entry_value, Json, JsonEntry, JsonV};
use crate::policy_source::opt_view;
use crate::pattern::{group, group_at, groups_view, regex_captures_all, regex_compile_error, regex_error, regex_matches, regex_pieces, regex_split};
use crate::text::{bool_str, bool_text, chars_of, contains, insert_name, is_whitespace_char, is_ws, join, join_strings, push_char, sorted_names, str_contains, str_eq};

verus! {

/// The placeholder of recipe templates, `{{ name }}` with optional blanks inside the braces.
pub open spec fn placeholder_pattern() -> Seq<char> {
    "\\{\\{\\s*(\\w+)\\s*\\}\\}"@
}

fn placeholder() -> (p: &'static str)
    ensures
        p@ == placeholder_pattern(),
{
    "\\{\\{\\s*(\\w+)\\s*\\}\\}"
}

/// The line that text ends in once `s` follows a text ending in `line`: what comes after
/// the last newline.
pub open spec fn line_after(line: Seq<char>, s: Seq<char>) -> Seq<char>
    decreases s.len(),
{
    if s.len() == 0 {
        line
    } else if s.last() == '\n' {
        Seq::empty()
    } else {
        line_after(line, s.drop_last()).push(s.last())
    }
}

/// The text after the last newline of `s` (all of `s` when it has none).
pub open spec fn last_line(s: Seq<char>) -> Seq<char> {
    line_after(Seq::empty(), s)
}

proof fn lemma_line_after_concat(l: Seq<char>, a: Seq<char>, b: Seq<char>)
    ensures
        line_after(l, a + b) == line_after(line_after(l, a), b),
    decreases b.len(),
{
    if b.len() == 0 {
        assert(a + b =~= a);
    } else {
        assert((a + b).drop_last() =~= a + b.drop_last());
        assert((a + b).last() == b.last());
        lemma_line_after_concat(l, a, b.drop_last());
    }
}

fn advance_line(line: &mut String, s: &str)
    ensures
        final(line)@ == line_after(old(line)@, s@),
{
    let ghost l0 = line@;
    let cs = chars_of(s);
    let mut i: usize = 0;
    while i < cs.len()
        invariant
            cs@ == s@,
            i <= cs@.len(),
            line@ == line_after(l0, s@.take(i as int)),
        decreases cs@.len() - i,
    {
        let c = cs[i];
        proof {
            assert(s@.take(i + 1).drop_last() =~= s@.take(i as int));
            assert(s@.take(i + 1).last() == c);
        }
        if c == '\n' {
            *line = String::new();
        } else {
            push_char(line, c);
        }
        i = i + 1;
    }
    proof { assert(s@.take(cs@.len() as int) =~= s@); }
}

/// Where the run of white space that starts at `i` in `s` ends.
pub open spec fn ws_run(s: Seq<char>, i: int) -> int
    decreases s.len() - i,
{
    if 0 <= i < s.len() && is_ws(s[i]) {
        ws_run(s, i + 1)
    } else {
        i
    }
}

/// The white space that `s` starts with.
pub open spec fn leading_ws(s: Seq<char>) -> Seq<char> {
    s.take(ws_run(s, 0))
}

fn leading_whitespace(s: &str) -> (r: String)
    ensures
        r@ == leading_ws(s@),
{
    let cs = chars_of(s);
    let mut i: usize = 0;
    while i < cs.len() && is_whitespace_char(cs[i])
        invariant
            cs@ == s@,
            i <= cs@.len(),
            ws_run(s@, 0) == ws_run(s@, i as int),
        decreases cs@.len() - i,
    {
        i = i + 1;
    }
    let head = s.substring_char(0, i);
    head.to_owned()
}

/// `v` with `ind` put in front of every line after the first, empty lines left bare.
pub open spec fn indent_lines(v: Seq<char>, ind: Seq<char>) -> Seq<char>
    decreases v.len(),
{
    if v.len() == 0 {
        Seq::empty()
    } else {
        let r = v.drop_first();
        if v[0] == '\n' {
            seq!['\n'] + (if r.len() > 0 && r[0] != '\n' { ind } else { Seq::empty() }) + indent_lines(r, ind)
        } else {
            seq![v[0]] + indent_lines(r, ind)
        }
    }
}

fn push_indented(out: &mut String, v: &str, ind: &str)
    ensures
        final(out)@ == old(out)@ + indent_lines(v@, ind@),
{
    let ghost o0 = out@;
    let cs = chars_of(v);
    let n = cs.len();
    let mut i: usize = 0;
    proof { assert(v@.skip(0) =~= v@); }
    while i < n
        invariant
            cs@ == v@,
            n == cs@.len(),
            i <= n,
            out@ + indent_lines(v@.skip(i as int), ind@) == o0 + indent_lines(v@, ind@),
        decreases n - i,
    {
        let c = cs[i];
        let ghost rest = v@.skip(i as int);
        let ghost next = v@.skip(i + 1);
        proof {
            assert(rest.drop_first() =~= next);
            assert(rest[0] == c);
        }
        let ghost before = out@;
        push_char(out, c);
        if c == '\n' && i + 1 < n && cs[i + 1] != '\n' {
            out.append(ind);
            proof {
                assert(next[0] == cs@[i + 1]);
                assert(indent_lines(rest, ind@) == seq!['\n'] + ind@ + indent_lines(next, ind@));
                assert(before + indent_lines(rest, ind@) =~= out@ + indent_lines(next, ind@));
            }
        } else {
            proof {
                if c == '\n' {
                    if next.len() > 0 {
                        assert(next[0] == cs@[i + 1]);
                    }
                    assert(indent_lines(rest, ind@) == seq!['\n'] + Seq::<char>::empty() + indent_lines(next, ind@));
                } else {
                    assert(indent_lines(rest, ind@) == seq![c] + indent_lines(next, ind@));
                }
                assert(before + indent_lines(rest, ind@) =~= out@ + indent_lines(next, ind@));
            }
        }
        i = i + 1;
    }
    proof { assert(v@.skip(n as int) =~= Seq::<char>::empty()); }
}

/// The characters of each key and value.
pub open spec fn pairs_view(ps: Seq<(String, String)>) -> Seq<(Seq<char>, Seq<char>)> {
    ps.map_values(|p: (String, String)| (p.0@, p.1@))
}

/// The value of the first pair with this key, as a map lookup sees it.
pub open spec fn lookup(ps: Seq<(Seq<char>, Seq<char>)>, key: Seq<char>) -> Option<Seq<char>>
    decreases ps.len(),
{
    if ps.len() == 0 {
        None
    } else if ps[0].0 == key {
        Some(ps[0].1)
    } else {
        lookup(ps.drop_first(), key)
    }
}

/// The value stored under `key`, if any.
pub fn lookup_value<'a>(ps: &'a Vec<(String, String)>, key: &str) -> (r: Option<&'a String>)
    ensures
        match r {
            Some(v) => lookup(pairs_view(ps@), key@) == Some(v@),
            None => lookup(pairs_view(ps@), key@) is None,
        },
{
    let ghost pv = pairs_view(ps@);
    let mut i: usize = 0;
    proof { assert(pv.skip(0) =~= pv); }
    while i < ps.len()
        invariant
            pv == pairs_view(ps@),
            i <= ps@.len(),
            lookup(pv, key@) == lookup(pv.skip(i as int), key@),
        decreases ps@.len() - i,
    {
        let ghost rest = pv.skip(i as int);
        proof {
            assert(rest[0] == pv[i as int]);
            assert(rest.drop_first() =~= pv.skip(i + 1));
        }
        if str_eq(ps[i].0.as_str(), key) {
            return Some(&ps[i].1);
        }
        i = i + 1;
    }
    proof { assert(pv.skip(ps@.len() as int) =~= Seq::<(Seq<char>, Seq<char>)>::empty()); }
    None
}

/// What a placeholder whose name is `g` stands for: the parameter's value, or nothing.
pub open spec fn placeholder_value(params: Seq<(Seq<char>, Seq<char>)>, g: Option<Seq<char>>) -> Seq<char> {
    match g {
        Some(k) => match lookup(params, k) {
            Some(v) => v,
            None => Seq::empty(),
        },
        None => Seq::empty(),
    }
}

/// The text of match `k`, or nothing past the last match.
pub open spec fn match_text(ms: Seq<Seq<Option<Seq<char>>>>, k: int) -> Seq<char> {
    match group(ms, k, 0) {
        Some(t) => t,
        None => Seq::empty(),
    }
}

/// The name captured by match `k`, if any.
pub open spec fn match_name(ms: Seq<Seq<Option<Seq<char>>>>, k: int) -> Option<Seq<char>> {
    group(ms, k, 1)
}

/// The template up to the end of piece `k`: the pieces with the matched text between them.
pub open spec fn source_upto(pieces: Seq<Seq<char>>, ms: Seq<Seq<Option<Seq<char>>>>, k: int) -> Seq<char>
    decreases k,
{
    if k <= 0 {
        pieces[0]
    } else {
        source_upto(pieces, ms, k - 1) + match_text(ms, k - 1) + pieces[k]
    }
}

/// What takes the place of match `k`: the named value, and with `indent` each of its later
/// lines indented like the line the placeholder stands on.
pub open spec fn replacement(
    pieces: Seq<Seq<char>>,
    ms: Seq<Seq<Option<Seq<char>>>>,
    params: Seq<(Seq<char>, Seq<char>)>,
    indent: bool,
    k: int,
) -> Seq<char> {
    let v = placeholder_value(params, match_name(ms, k));
    if indent {
        indent_lines(v, leading_ws(last_line(source_upto(pieces, ms, k))))
    } else {
        v
    }
}

/// The output up to the end of piece `k`: the pieces with the replacements between them.
pub open spec fn filled_upto(
    pieces: Seq<Seq<char>>,
    ms: Seq<Seq<Option<Seq<char>>>>,
    params: Seq<(Seq<char>, Seq<char>)>,
    indent: bool,
    k: int,
) -> Seq<char>
    decreases k,
{
    if k <= 0 {
        pieces[0]
    } else {
        filled_upto(pieces, ms, params, indent, k - 1) + replacement(pieces, ms, params, indent, k - 1) + pieces[k]
    }
}

/// A template cut by its placeholders into `pieces`, with `ms` the placeholders, filled in
/// from `params`.
pub open spec fn filled(
    pieces: Seq<Seq<char>>,
    ms: Seq<Seq<Option<Seq<char>>>>,
    params: Seq<(Seq<char>, Seq<char>)>,
    indent: bool,
) -> Seq<char> {
    if pieces.len() == 0 {
        Seq::empty()
    } else {
        filled_upto(pieces, ms, params, indent, pieces.len() - 1)
    }
}

/// Fill a template, given as the text between its placeholders and the placeholders
/// themselves, from `params`; with `indent`, multi-line values are indented to the
/// placeholder's line.
pub fn fill_placeholders(
    pieces: &Vec<String>,
    ms: &Vec<Vec<Option<String>>>,
    params: &Vec<(String, String)>,
    indent: bool,
) -> (r: String)
    ensures
        r@ == filled(pieces.deep_view(), groups_view(ms@), pairs_view(params@), indent),
{
    let ghost pv = pieces.deep_view();
    let ghost mv = groups_view(ms@);
    let ghost qv = pairs_view(params@);
    let mut out = String::new();
    if pieces.len() == 0 {
        return out;
    }
    let mut line = String::new();
    out.append(pieces[0].as_str());
    advance_line(&mut line, pieces[0].as_str());
    proof {
        assert(pv[0] == pieces[0]@);
        assert(out@ =~= pv[0]);
    }
    let mut k: usize = 0;
    while k < pieces.len() - 1
        invariant
            pv == pieces.deep_view(),
            mv == groups_view(ms@),
            qv == pairs_view(params@),
            pv.len() == pieces@.len(),
            mv.len() == ms@.len(),
            0 < pieces@.len(),
            k < pieces@.len(),
            out@ == filled_upto(pv, mv, qv, indent, k as int),
            line@ == last_line(source_upto(pv, mv, k as int)),
        decreases pieces@.len() - k,
    {
        let ghost src = source_upto(pv, mv, k as int);
        let value: &str = match group_at(ms, k, 1) {
            Some(g) => match lookup_value(params, g.as_str()) {
                Some(v) => v.as_str(),
                None => "",
            },
            None => "",
        };
        proof {
            reveal_strlit("");
            assert(value@ == placeholder_value(qv, match_name(mv, k as int)));
        }
        if indent {
            let ind = leading_whitespace(line.as_str());
            push_indented(&mut out, value, ind.as_str());
        } else {
            out.append(value);
        }
        let ghost mt = match_text(mv, k as int);
        match group_at(ms, k, 0) {
            Some(t) => advance_line(&mut line, t.as_str()),
            None => {
                proof { assert(line_after(line@, mt) == line@); }
            },
        }
        advance_line(&mut line, pieces[k + 1].as_str());
        out.append(pieces[k + 1].as_str());
        proof {
            assert(pv[k + 1] == pieces[k + 1]@);
            lemma_line_after_concat(Seq::empty(), src, mt);
            lemma_line_after_concat(Seq::empty(), src + mt, pv[k + 1]);
        }
        k = k + 1;
    }
    out
}

/// Fill a template from `params` the way regex-driven placeholder replacement does; the
/// pattern must compile.
fn substitute(template: &str, params: &Vec<(String, String)>, indent: bool) -> (r: String)
    requires
        regex_error(placeholder_pattern()) is None,
    ensures
        r@ == filled(
            regex_pieces(placeholder_pattern(), template@),
            regex_matches(placeholder_pattern(), template@),
            pairs_view(params@),
            indent,
        ),
{
    let pieces = regex_split(placeholder(), template);
    let ms = regex_captures_all(placeholder(), template);
    fill_placeholders(&pieces, &ms, params, indent)
}

/// Substitute the `{{ name }}` placeholders of a template with the named parameters (an
/// unknown name stands for nothing); a multi-line value has its later lines indented like the
/// line the placeholder stands on. Fails only if the regex crate refuses the placeholder
/// pattern, with its message.
pub fn template_substitute(template: &str, params: &Vec<(String, String)>) -> (r: Result<String, CoreError>)
    ensures
        match r {
            Ok(s) => regex_error(placeholder_pattern()) is None && s@ == filled(
                regex_pieces(placeholder_pattern(), template@),
                regex_matches(placeholder_pattern(), template@),
                pairs_view(params@),
                true,
            ),
            Err(e) => regex_error(placeholder_pattern()) matches Some(m) && e matches CoreError::Recipe(msg)
                && msg@ == m,
        },
{
    match regex_compile_error(placeholder()) {
        Some(msg) => Err(CoreError::Recipe(msg)),
        None => Ok(substitute(template, params, true)),
    }
}

/// The type a recipe parameter takes.
#[derive(Debug, Clone, Copy, PartialEq, Eq, Structural)]
pub enum ParamType {
    String,
    Int,
}

impl ParamType {
    /// The type's name as recipes write it.
    pub open spec fn spec_text(self) -> Seq<char> {
        match self {
            ParamType::String => "string"@,
            ParamType::Int => "int"@,
        }
    }

    /// The type's name as recipes write it (`string` or `int`).
    pub fn to_text(&self) -> (s: String)
        ensures
            s@ == self.spec_text(),
    {
        match self {
            ParamType::String => "string".to_owned(),
            ParamType::Int => "int".to_owned(),
        }
    }
}

/// How a recipe declares one parameter.
#[derive(Debug, Clone)]
pub struct ParamDef {
    pub param_type: ParamType,
    pub required: bool,
    pub default: Option<String>,
    pub description: Option<String>,
    pub enum_values: Option<Vec<String>>,
}

/// A parameter declaration with its text taken by characters.
pub struct ParamDefView {
    pub param_type: ParamType,
    pub required: bool,
    pub default: Option<Seq<char>>,
    pub description: Option<Seq<char>>,
    pub enum_values: Option<Seq<Seq<char>>>,
}

impl View for ParamDef {
    type V = ParamDefView;

    open spec fn view(&self) -> ParamDefView {
        ParamDefView {
            param_type: self.param_type,
            required: self.required,
            default: opt_view(self.default),
            description: opt_view(self.description),
            enum_values: match self.enum_values {
                Some(v) => Some(v.deep_view()),
                None => None,
            },
        }
    }
}

/// A recipe: a policy template with declared parameters, lookup tables that turn a
/// parameter's value into content, and the template text itself.
pub struct Recipe {
    pub name: String,
    pub description: String,
    /// The parameters in declaration order, each name once.
    pub params: Vec<(String, ParamDef)>,
    /// For some parameters, a table from the value given to the text that replaces it.
    pub lookups: Vec<(String, Vec<(String, String)>)>,
    /// The template text the recipe was read from.
    pub raw_yaml: String,
}

/// A recipe's declarations with their text taken by characters.
pub struct RecipeView {
    pub name: Seq<char>,
    pub description: Seq<char>,
    pub params: Seq<(Seq<char>, ParamDefView)>,
    pub lookups: Seq<(Seq<char>, Seq<(Seq<char>, Seq<char>)>)>,
}

/// The characters of each parameter name and the view of its declaration.
pub open spec fn params_view(ps: Seq<(String, ParamDef)>) -> Seq<(Seq<char>, ParamDefView)> {
    ps.map_values(|p: (String, ParamDef)| (p.0@, p.1@))
}

/// The characters of each lookup table.
pub open spec fn lookups_view(ls: Seq<(String, Vec<(String, String)>)>) -> Seq<(Seq<char>, Seq<(Seq<char>, Seq<char>)>)> {
    ls.map_values(|l: (String, Vec<(String, String)>)| (l.0@, pairs_view(l.1@)))
}

impl View for Recipe {
    type V = RecipeView;

    open spec fn view(&self) -> RecipeView {
        RecipeView {
            name: self.name@,
            description: self.description@,
            params: params_view(self.params@),
            lookups: lookups_view(self.lookups@),
        }
    }
}

/// The string stored under `key` among a mapping's entries, when that value is a string.
pub open spec fn entry_str(es: Seq<(Seq<char>, JsonV)>, key: Seq<char>) -> Option<Seq<char>> {
    match key_index(es, key) {
        Some(i) => match es[i].1 {
            JsonV::Str(s) => Some(s),
            _ => None,
        },
        None => None,
    }
}

/// The boolean stored under `key`, `false` when there is none.
pub open spec fn entry_flag(es: Seq<(Seq<char>, JsonV)>, key: Seq<char>) -> bool {
    match key_index(es, key) {
        Some(i) => match es[i].1 {
            JsonV::Bool(b) => b,
            _ => false,
        },
        None => false,
    }
}

/// The strings among a list's items, in order.
pub open spec fn strings_of(items: Seq<JsonV>) -> Seq<Seq<char>>
    decreases items.len(),
{
    if items.len() == 0 {
        Seq::empty()
    } else {
        let rest = strings_of(items.drop_last());
        match items.last() {
            JsonV::Str(s) => rest.push(s),
            _ => rest,
        }
    }
}

/// The strings of the list stored under `key`, when that value is a list.
pub open spec fn entry_strings(es: Seq<(Seq<char>, JsonV)>, key: Seq<char>) -> Option<Seq<Seq<char>>> {
    match key_index(es, key) {
        Some(i) => match es[i].1 {
            JsonV::Array(items) => Some(strings_of(items)),
            _ => None,
        },
        None => None,
    }
}

/// `recipe 'NAME': `, the start of most recipe messages.
pub open spec fn recipe_prefix(recipe: Seq<char>) -> Seq<char> {
    "recipe '"@ + recipe + "': "@
}

/// How one entry of a recipe's `params` mapping is read.
pub open spec fn param_spec(recipe: Seq<char>, name: Seq<char>, val: JsonV) -> Result<ParamDefView, Seq<char>> {
    match val {
        JsonV::Object(es) => {
            let t = entry_str(es, "type"@);
            if t is Some && t->0 != "string"@ && t->0 != "int"@ {
                Err(recipe_prefix(recipe) + "param '"@ + name + "' has unknown type '"@ + t->0 + "'"@)
            } else {
                Ok(ParamDefView {
                    param_type: if t == Some("int"@) { ParamType::Int } else { ParamType::String },
                    required: entry_flag(es, "required"@),
                    default: entry_str(es, "default"@),
                    description: entry_str(es, "description"@),
                    enum_values: entry_strings(es, "enum"@),
                })
            }
        },
        _ => Err(recipe_prefix(recipe) + "param '"@ + name + "' must be a mapping"@),
    }
}

/// The parameter declarations of a `params` mapping, or the message of the first bad one.
pub open spec fn param_list_spec(recipe: Seq<char>, ps: Seq<(Seq<char>, JsonV)>) -> Result<Seq<(Seq<char>, ParamDefView)>, Seq<char>>
    decreases ps.len(),
{
    if ps.len() == 0 {
        Ok(Seq::empty())
    } else {
        match param_list_spec(recipe, ps.drop_last()) {
            Err(e) => Err(e),
            Ok(acc) => match param_spec(recipe, ps.last().0, ps.last().1) {
                Err(e) => Err(e),
                Ok(d) => Ok(acc.push((ps.last().0, d))),
            },
        }
    }
}

/// The parameters a recipe document declares: none without a `params` key.
pub open spec fn params_spec(recipe: Seq<char>, es: Seq<(Seq<char>, JsonV)>) -> Result<Seq<(Seq<char>, ParamDefView)>, Seq<char>> {
    match key_index(es, "params"@) {
        None => Ok(Seq::empty()),
        Some(i) => match es[i].1 {
            JsonV::Object(ps) => param_list_spec(recipe, ps),
            _ => Err(recipe_prefix(recipe) + "'params' must be a mapping"@),
        },
    }
}

/// One lookup table: every value must be a string.
pub open spec fn table_spec(recipe: Seq<char>, param: Seq<char>, es: Seq<(Seq<char>, JsonV)>) -> Result<Seq<(Seq<char>, Seq<char>)>, Seq<char>>
    decreases es.len(),
{
    if es.len() == 0 {
        Ok(Seq::empty())
    } else {
        match table_spec(recipe, param, es.drop_last()) {
            Err(e) => Err(e),
            Ok(acc) => match es.last().1 {
                JsonV::Str(v) => Ok(acc.push((es.last().0, v))),
                _ => Err(recipe_prefix(recipe) + "lookup '"@ + param + "."@ + es.last().0 + "' value must be a string"@),
            },
        }
    }
}

/// The tables of a `lookups` mapping, or the message of the first bad one.
pub open spec fn lookup_list_spec(recipe: Seq<char>, ls: Seq<(Seq<char>, JsonV)>) -> Result<Seq<(Seq<char>, Seq<(Seq<char>, Seq<char>)>)>, Seq<char>>
    decreases ls.len(),
{
    if ls.len() == 0 {
        Ok(Seq::empty())
    } else {
        match lookup_list_spec(recipe, ls.drop_last()) {
            Err(e) => Err(e),
            Ok(acc) => match ls.last().1 {
                JsonV::Object(inner) => match table_spec(recipe, ls.last().0, inner) {
                    Err(e) => Err(e),
                    Ok(t) => Ok(acc.push((ls.last().0, t))),
                },
                _ => Err(recipe_prefix(recipe) + "lookup '"@ + ls.last().0 + "' must be a mapping"@),
            },
        }
    }
}

/// The lookup tables a recipe document declares: none without a `lookups` key.
pub open spec fn lookups_spec(recipe: Seq<char>, es: Seq<(Seq<char>, JsonV)>) -> Result<Seq<(Seq<char>, Seq<(Seq<char>, Seq<char>)>)>, Seq<char>> {
    match key_index(es, "lookups"@) {
        None => Ok(Seq::empty()),
        Some(i) => match es[i].1 {
            JsonV::Object(ls) => lookup_list_spec(recipe, ls),
            _ => Err(recipe_prefix(recipe) + "'lookups' must be a mapping"@),
        },
    }
}

/// Whether some parameter is declared under `name`.
pub open spec fn declares(ps: Seq<(Seq<char>, ParamDefView)>, name: Seq<char>) -> bool {
    exists|i: int| 0 <= i < ps.len() && #[trigger] ps[i].0 == name
}

/// The first lookup table whose key names no parameter.
pub open spec fn stray_lookup(ls: Seq<(Seq<char>, Seq<(Seq<char>, Seq<char>)>)>, ps: Seq<(Seq<char>, ParamDefView)>) -> Option<Seq<char>>
    decreases ls.len(),
{
    if ls.len() == 0 {
        None
    } else if !declares(ps, ls[0].0) {
        Some(ls[0].0)
    } else {
        stray_lookup(ls.drop_first(), ps)
    }
}

/// How a recipe document is read, or the message that refuses it.
pub open spec fn recipe_spec(doc: JsonV) -> Result<RecipeView, Seq<char>> {
    match doc {
        JsonV::Object(es) => match entry_str(es, "name"@) {
            None => Err("recipe missing 'name' field"@),
            Some(n) => match entry_str(es, "description"@) {
                None => Err("recipe '"@ + n + "' missing 'description'"@),
                Some(d) => match params_spec(n, es) {
                    Err(e) => Err(e),
                    Ok(ps) => match lookups_spec(n, es) {
                        Err(e) => Err(e),
                        Ok(ls) => match stray_lookup(ls, ps) {
                            Some(k) => Err(recipe_prefix(n) + "lookup key '"@ + k + "' does not match any parameter"@),
                            None => Ok(RecipeView { name: n, description: d, params: ps, lookups: ls }),
                        },
                    },
                },
            },
        },
        _ => Err("recipe must be a YAML mapping"@),
    }
}

fn get_string(es: &Vec<JsonEntry>, key: &str) -> (r: Option<String>)
    ensures
        opt_view(r) == entry_str(jes(es@), key@),
{
    proof { lemma_jes(es@); }
    match find_key(es, key) {
        Some(i) => match &es[i].value {
            Json::Str(s) => Some(s.clone()),
            _ => None,
        },
        None => None,
    }
}

fn entry_flag_of(es: &Vec<JsonEntry>, key: &str) -> (b: bool)
    ensures
        b == entry_flag(jes(es@), key@),
{
    proof { lemma_jes(es@); }
    match find_key(es, key) {
        Some(i) => match &es[i].value {
            Json::Bool(b) => *b,
            _ => false,
        },
        None => false,
    }
}

fn strings_in(items: &Vec<Json>) -> (r: Vec<String>)
    ensures
        r.deep_view() == strings_of(jvs(items@)),
{
    proof { lemma_jvs(items@); }
    let ghost iv = jvs(items@);
    let mut r: Vec<String> = Vec::new();
    let mut i: usize = 0;
    proof { assert(r.deep_view() =~= strings_of(iv.take(0))); }
    while i < items.len()
        invariant
            iv == jvs(items@),
            iv.len() == items@.len(),
            forall|j: int| 0 <= j < items@.len() ==> #[trigger] iv[j] == jv(items@[j]),
            i <= items@.len(),
            r.deep_view() == strings_of(iv.take(i as int)),
        decreases items@.len() - i,
    {
        proof {
            assert(iv.take(i + 1).drop_last() =~= iv.take(i as int));
            assert(iv.take(i + 1).last() == jv(items@[i as int]));
        }
        match &items[i] {
            Json::Str(s) => {
                let ghost before = r.deep_view();
                r.push(s.clone());
                proof { assert(r.deep_view() =~= before.push(s@)); }
            },
            _ => {},
        }
        i = i + 1;
    }
    proof { assert(iv.take(items@.len() as int) =~= iv); }
    r
}

fn entry_string_list(es: &Vec<JsonEntry>, key: &str) -> (r: Option<Vec<String>>)
    ensures
        match r {
            Some(v) => entry_strings(jes(es@), key@) == Some(v.deep_view()),
            None => entry_strings(jes(es@), key@) is None,
        },
{
    proof { lemma_jes(es@); }
    match find_key(es, key) {
        Some(i) => match &es[i].value {
            Json::Array(items) => Some(strings_in(items)),
            _ => None,
        },
        None => None,
    }
}

fn prefix_text(recipe: &str) -> (m: String)
    ensures
        m@ == recipe_prefix(recipe@),
{
    let mut m = "recipe '".to_owned();
    m.append(recipe);
    m.append("': ");
    m
}

fn parse_param(recipe: &str, name: &str, val: &Json) -> (r: Result<ParamDef, String>)
    ensures
        match r {
            Ok(d) => param_spec(recipe@, name@, jv(*val)) == Ok::<ParamDefView, Seq<char>>(d@),
            Err(m) => param_spec(recipe@, name@, jv(*val)) == Err::<ParamDefView, Seq<char>>(m@),
        },
{
    match val {
        Json::Object(es) => {
            let t = get_string(es, "type");
            let param_type = match &t {
                Some(t) => {
                    if str_eq(t.as_str(), "int") {
                        ParamType::Int
                    } else if str_eq(t.as_str(), "string") {
                        ParamType::String
                    } else {
                        let mut m = prefix_text(recipe);
                        m.append("param '");
                        m.append(name);
                        m.append("' has unknown type '");
                        m.append(t.as_str());
                        m.append("'");
                        return Err(m);
                    }
                },
                None => ParamType::String,
            };
            let d = ParamDef {
                param_type,
                required: entry_flag_of(es, "required"),
                default: get_string(es, "default"),
                description: get_string(es, "description"),
                enum_values: entry_string_list(es, "enum"),
            };
            Ok(d)
        },
        _ => {
            let mut m = prefix_text(recipe);
            m.append("param '");
            m.append(name);
            m.append("' must be a mapping");
            Err(m)
        },
    }
}

proof fn lemma_param_list_err(recipe: Seq<char>, ps: Seq<(Seq<char>, JsonV)>, n: int)
    requires
        0 <= n <= ps.len(),
        param_list_spec(recipe, ps.take(n)) is Err,
    ensures
        param_list_spec(recipe, ps) == param_list_spec(recipe, ps.take(n)),
    decreases ps.len() - n,
{
    if n < ps.len() {
        assert(ps.take(n + 1).drop_last() =~= ps.take(n));
        lemma_param_list_err(recipe, ps, n + 1);
    } else {
        assert(ps.take(n) =~= ps);
    }
}

fn parse_param_list(recipe: &str, ps: &Vec<JsonEntry>) -> (r: Result<Vec<(String, ParamDef)>, String>)
    ensures
        match r {
            Ok(v) => param_list_spec(recipe@, jes(ps@)) == Ok::<Seq<(Seq<char>, ParamDefView)>, Seq<char>>(params_view(v@)),
            Err(m) => param_list_spec(recipe@, jes(ps@)) == Err::<Seq<(Seq<char>, ParamDefView)>, Seq<char>>(m@),
        },
{
    proof { lemma_jes(ps@); }
    let ghost ev = jes(ps@);
    let mut out: Vec<(String, ParamDef)> = Vec::new();
    let mut i: usize = 0;
    proof { assert(params_view(out@) =~= Seq::<(Seq<char>, ParamDefView)>::empty()); assert(ev.take(0) =~= Seq::<(Seq<char>, JsonV)>::empty()); }
    while i < ps.len()
        invariant
            ev == jes(ps@),
            ev.len() == ps@.len(),
            forall|j: int| 0 <= j < ps@.len() ==> #[trigger] ev[j] == (ps@[j].key@, jv(ps@[j].value)),
            i <= ps@.len(),
            param_list_spec(recipe@, ev.take(i as int)) == Ok::<Seq<(Seq<char>, ParamDefView)>, Seq<char>>(params_view(out@)),
        decreases ps@.len() - i,
    {
        proof {
            assert(ev.take(i + 1).drop_last() =~= ev.take(i as int));
            assert(ev.take(i + 1).last() == ev[i as int]);
        }
        match parse_param(recipe, ps[i].key.as_str(), &ps[i].value) {
            Ok(d) => {
                let ghost before = out@;
                out.push((ps[i].key.clone(), d));
                proof { assert(params_view(out@) =~= params_view(before).push((ps@[i as int].key@, d@))); }
            },
            Err(m) => {
                proof { lemma_param_list_err(recipe@, ev, i + 1); }
                return Err(m);
            },
        }
        i = i + 1;
    }
    proof { assert(ev.take(ps@.len() as int) =~= ev); }
    Ok(out)
}

fn parse_params(recipe: &str, es: &Vec<JsonEntry>) -> (r: Result<Vec<(String, ParamDef)>, String>)
    ensures
        match r {
            Ok(v) => params_spec(recipe@, jes(es@)) == Ok::<Seq<(Seq<char>, ParamDefView)>, Seq<char>>(params_view(v@)),
            Err(m) => params_spec(recipe@, jes(es@)) == Err::<Seq<(Seq<char>, ParamDefView)>, Seq<char>>(m@),
        },
{
    proof { lemma_jes(es@); }
    match find_key(es, "params") {
        None => {
            let v: Vec<(String, ParamDef)> = Vec::new();
            proof { assert(params_view(v@) =~= Seq::<(Seq<char>, ParamDefView)>::empty()); }
            Ok(v)
        },
        Some(i) => match &es[i].value {
            Json::Object(ps) => parse_param_list(recipe, ps),
            _ => {
                let mut m = prefix_text(recipe);
                m.append("'params' must be a mapping");
                Err(m)
            },
        },
    }
}

proof fn lemma_table_err(recipe: Seq<char>, param: Seq<char>, es: Seq<(Seq<char>, JsonV)>, n: int)
    requires
        0 <= n <= es.len(),
        table_spec(recipe, param, es.take(n)) is Err,
    ensures
        table_spec(recipe, param, es) == table_spec(recipe, param, es.take(n)),
    decreases es.len() - n,
{
    if n < es.len() {
        assert(es.take(n + 1).drop_last() =~= es.take(n));
        lemma_table_err(recipe, param, es, n + 1);
    } else {
        assert(es.take(n) =~= es);
    }
}

fn parse_table(recipe: &str, param: &str, es: &Vec<JsonEntry>) -> (r: Result<Vec<(String, String)>, String>)
    ensures
        match r {
            Ok(v) => table_spec(recipe@, param@, jes(es@)) == Ok::<Seq<(Seq<char>, Seq<char>)>, Seq<char>>(pairs_view(v@)),
            Err(m) => table_spec(recipe@, param@, jes(es@)) == Err::<Seq<(Seq<char>, Seq<char>)>, Seq<char>>(m@),
        },
{
    proof { lemma_jes(es@); }
    let ghost ev = jes(es@);
    let mut out: Vec<(String, String)> = Vec::new();
    let mut i: usize = 0;
    proof { assert(pairs_view(out@) =~= Seq::<(Seq<char>, Seq<char>)>::empty()); assert(ev.take(0) =~= Seq::<(Seq<char>, JsonV)>::empty()); }
    while i < es.len()
        invariant
            ev == jes(es@),
            ev.len() == es@.len(),
            forall|j: int| 0 <= j < es@.len() ==> #[trigger] ev[j] == (es@[j].key@, jv(es@[j].value)),
            i <= es@.len(),
            table_spec(recipe@, param@, ev.take(i as int)) == Ok::<Seq<(Seq<char>, Seq<char>)>, Seq<char>>(pairs_view(out@)),
        decreases es@.len() - i,
    {
        proof {
            assert(ev.take(i + 1).drop_last() =~= ev.take(i as int));
            assert(ev.take(i + 1).last() == ev[i as int]);
        }
        match &es[i].value {
            Json::Str(v) => {
                let ghost before = out@;
                out.push((es[i].key.clone(), v.clone()));
                proof { assert(pairs_view(out@) =~= pairs_view(before).push((es@[i as int].key@, v@))); }
            },
            _ => {
                let mut m = prefix_text(recipe);
                m.append("lookup '");
                m.append(param);
                m.append(".");
                m.append(es[i].key.as_str());
                m.append("' value must be a string");
                proof { lemma_table_err(recipe@, param@, ev, i + 1); }
                return Err(m);
            },
        }
        i = i + 1;
    }
    proof { assert(ev.take(es@.len() as int) =~= ev); }
    Ok(out)
}

proof fn lemma_lookup_list_err(recipe: Seq<char>, ls: Seq<(Seq<char>, JsonV)>, n: int)
    requires
        0 <= n <= ls.len(),
        lookup_list_spec(recipe, ls.take(n)) is Err,
    ensures
        lookup_list_spec(recipe, ls) == lookup_list_spec(recipe, ls.take(n)),
    decreases ls.len() - n,
{
    if n < ls.len() {
        assert(ls.take(n + 1).drop_last() =~= ls.take(n));
        lemma_lookup_list_err(recipe, ls, n + 1);
    } else {
        assert(ls.take(n) =~= ls);
    }
}

fn parse_lookup_list(recipe: &str, ls: &Vec<JsonEntry>) -> (r: Result<Vec<(String, Vec<(String, String)>)>, String>)
    ensures
        match r {
            Ok(v) => lookup_list_spec(recipe@, jes(ls@)) == Ok::<Seq<(Seq<char>, Seq<(Seq<char>, Seq<char>)>)>, Seq<char>>(lookups_view(v@)),
            Err(m) => lookup_list_spec(recipe@, jes(ls@)) == Err::<Seq<(Seq<char>, Seq<(Seq<char>, Seq<char>)>)>, Seq<char>>(m@),
        },
{
    proof { lemma_jes(ls@); }
    let ghost ev = jes(ls@);
    let mut out: Vec<(String, Vec<(String, String)>)> = Vec::new();
    let mut i: usize = 0;
    proof { assert(lookups_view(out@) =~= Seq::<(Seq<char>, Seq<(Seq<char>, Seq<char>)>)>::empty()); assert(ev.take(0) =~= Seq::<(Seq<char>, JsonV)>::empty()); }
    while i < ls.len()
        invariant
            ev == jes(ls@),
            ev.len() == ls@.len(),
            forall|j: int| 0 <= j < ls@.len() ==> #[trigger] ev[j] == (ls@[j].key@, jv(ls@[j].value)),
            i <= ls@.len(),
            lookup_list_spec(recipe@, ev.take(i as int)) == Ok::<Seq<(Seq<char>, Seq<(Seq<char>, Seq<char>)>)>, Seq<char>>(lookups_view(out@)),
        decreases ls@.len() - i,
    {
        proof {
            assert(ev.take(i + 1).drop_last() =~= ev.take(i as int));
            assert(ev.take(i + 1).last() == ev[i as int]);
        }
        match &ls[i].value {
            Json::Object(inner) => match parse_table(recipe, ls[i].key.as_str(), inner) {
                Ok(t) => {
                    let ghost before = out@;
                    out.push((ls[i].key.clone(), t));
                    proof { assert(lookups_view(out@) =~= lookups_view(before).push((ls@[i as int].key@, pairs_view(t@)))); }
                },
                Err(m) => {
                    proof { lemma_lookup_list_err(recipe@, ev, i + 1); }
                    return Err(m);
                },
            },
            _ => {
                let mut m = prefix_text(recipe);
                m.append("lookup '");
                m.append(ls[i].key.as_str());
                m.append("' must be a mapping");
                proof { lemma_lookup_list_err(recipe@, ev, i + 1); }
                return Err(m);
            },
        }
        i = i + 1;
    }
    proof { assert(ev.take(ls@.len() as int) =~= ev); }
    Ok(out)
}

fn parse_lookups(recipe: &str, es: &Vec<JsonEntry>) -> (r: Result<Vec<(String, Vec<(String, String)>)>, String>)
    ensures
        match r {
            Ok(v) => lookups_spec(recipe@, jes(es@)) == Ok::<Seq<(Seq<char>, Seq<(Seq<char>, Seq<char>)>)>, Seq<char>>(lookups_view(v@)),
            Err(m) => lookups_spec(recipe@, jes(es@)) == Err::<Seq<(Seq<char>, Seq<(Seq<char>, Seq<char>)>)>, Seq<char>>(m@),
        },
{
    proof { lemma_jes(es@); }
    match find_key(es, "lookups") {
        None => {
            let v: Vec<(String, Vec<(String, String)>)> = Vec::new();
            proof { assert(lookups_view(v@) =~= Seq::<(Seq<char>, Seq<(Seq<char>, Seq<char>)>)>::empty()); }
            Ok(v)
        },
        Some(i) => match &es[i].value {
            Json::Object(ls) => parse_lookup_list(recipe, ls),
            _ => {
                let mut m = prefix_text(recipe);
                m.append("'lookups' must be a mapping");
                Err(m)
            },
        },
    }
}

/// Whether a parameter is declared under `name`.
pub fn has_param(params: &Vec<(String, ParamDef)>, name: &str) -> (b: bool)
    ensures
        b == declares(params_view(params@), name@),
{
    let ghost pv = params_view(params@);
    let mut i: usize = 0;
    while i < params.len()
        invariant
            pv == params_view(params@),
            i <= params@.len(),
            forall|j: int| 0 <= j < i ==> #[trigger] pv[j].0 != name@,
        decreases params@.len() - i,
    {
        if str_eq(params[i].0.as_str(), name) {
            proof { assert(pv[i as int].0 == name@); }
            return true;
        }
        i = i + 1;
    }
    false
}

fn find_stray_lookup<'a>(ls: &'a Vec<(String, Vec<(String, String)>)>, params: &Vec<(String, ParamDef)>) -> (r: Option<&'a String>)
    ensures
        match r {
            Some(k) => stray_lookup(lookups_view(ls@), params_view(params@)) == Some(k@),
            None => stray_lookup(lookups_view(ls@), params_view(params@)) is None,
        },
{
    let ghost lv = lookups_view(ls@);
    let ghost pv = params_view(params@);
    let mut i: usize = 0;
    proof { assert(lv.skip(0) =~= lv); }
    while i < ls.len()
        invariant
            lv == lookups_view(ls@),
            pv == params_view(params@),
            i <= ls@.len(),
            stray_lookup(lv, pv) == stray_lookup(lv.skip(i as int), pv),
        decreases ls@.len() - i,
    {
        proof {
            assert(lv.skip(i as int)[0] == lv[i as int]);
            assert(lv.skip(i as int).drop_first() =~= lv.skip(i + 1));
        }
        if !has_param(params, ls[i].0.as_str()) {
            return Some(&ls[i].0);
        }
        i = i + 1;
    }
    proof { assert(lv.skip(ls@.len() as int) =~= Seq::<(Seq<char>, Seq<(Seq<char>, Seq<char>)>)>::empty()); }
    None
}

impl Recipe {
    /// Read a recipe from its YAML text `yaml`, given as `doc` once parsed: the document
    /// must be a mapping with string `name` and `description`, optional `params` and
    /// `lookups` mappings, and every lookup table must belong to a declared parameter.
    pub fn from_yaml(yaml: &str, doc: &Json) -> (r: Result<Recipe, CoreError>)
        ensures
            match r {
                Ok(rec) => recipe_spec(jv(*doc)) == Ok::<RecipeView, Seq<char>>(rec@) && rec.raw_yaml@ == yaml@,
                Err(e) => recipe_spec(jv(*doc)) matches Err(m) && e matches CoreError::Recipe(msg) && msg@ == m,
            },
    {
        match doc {
            Json::Object(es) => {
                let name = match get_string(es, "name") {
                    Some(n) => n,
                    None => return Err(CoreError::Recipe("recipe missing 'name' field".to_owned())),
                };
                let description = match get_string(es, "description") {
                    Some(d) => d,
                    None => {
                        let mut m = "recipe '".to_owned();
                        m.append(name.as_str());
                        m.append("' missing 'description'");
                        return Err(CoreError::Recipe(m));
                    },
                };
                let params = match parse_params(name.as_str(), es) {
                    Ok(p) => p,
                    Err(m) => return Err(CoreError::Recipe(m)),
                };
                let lookups = match parse_lookups(name.as_str(), es) {
                    Ok(l) => l,
                    Err(m) => return Err(CoreError::Recipe(m)),
                };
                match find_stray_lookup(&lookups, &params) {
                    Some(k) => {
                        let mut m = prefix_text(name.as_str());
                        m.append("lookup key '");
                        m.append(k.as_str());
                        m.append("' does not match any parameter");
                        return Err(CoreError::Recipe(m));
                    },
                    None => {},
                }
                Ok(Recipe { name, description, params, lookups, raw_yaml: yaml.to_owned() })
            },
            _ => Err(CoreError::Recipe("recipe must be a YAML mapping".to_owned())),
        }
    }

    /// The declaration of the parameter called `name`, if the recipe has one.
    pub fn param(&self, name: &str) -> (r: Option<&ParamDef>)
        ensures
            match r {
                Some(d) => exists|i: int| 0 <= i < self.params@.len() && self.params@[i].0@ == name@
                    && self.params@[i].1 == *d && forall|j: int| 0 <= j < i ==> #[trigger] self.params@[j].0@ != name@,
                None => !declares(params_view(self.params@), name@),
            },
    {
        let ghost pv = params_view(self.params@);
        let mut i: usize = 0;
        while i < self.params.len()
            invariant
                pv == params_view(self.params@),
                i <= self.params@.len(),
                forall|j: int| 0 <= j < i ==> #[trigger] self.params@[j].0@ != name@,
            decreases self.params@.len() - i,
        {
            if str_eq(self.params[i].0.as_str(), name) {
                return Some(&self.params[i].1);
            }
            i = i + 1;
        }
        proof {
            assert forall|j: int| 0 <= j < pv.len() implies #[trigger] pv[j].0 != name@ by {
                assert(pv[j].0 == self.params@[j].0@);
            }
        }
        None
    }
}

/// The first required parameter that is neither given nor has a default.
pub open spec fn missing_required(ps: Seq<(Seq<char>, ParamDefView)>, user: Seq<(Seq<char>, Seq<char>)>) -> Option<Seq<char>>
    decreases ps.len(),
{
    if ps.len() == 0 {
        None
    } else if ps[0].1.required && lookup(user, ps[0].0) is None && ps[0].1.default is None {
        Some(ps[0].0)
    } else {
        missing_required(ps.drop_first(), user)
    }
}

/// The first given parameter that the recipe does not declare.
pub open spec fn unknown_param(ps: Seq<(Seq<char>, ParamDefView)>, user: Seq<(Seq<char>, Seq<char>)>) -> Option<Seq<char>>
    decreases user.len(),
{
    if user.len() == 0 {
        None
    } else if !declares(ps, user[0].0) {
        Some(user[0].0)
    } else {
        unknown_param(ps, user.drop_first())
    }
}

/// The declaration of the first parameter called `name`.
pub open spec fn param_decl(ps: Seq<(Seq<char>, ParamDefView)>, name: Seq<char>) -> Option<ParamDefView>
    decreases ps.len(),
{
    if ps.len() == 0 {
        None
    } else if ps[0].0 == name {
        Some(ps[0].1)
    } else {
        param_decl(ps.drop_first(), name)
    }
}

/// The first given parameter whose value is not among the values its declaration allows:
/// its name, the value and the allowed values.
pub open spec fn bad_choice(ps: Seq<(Seq<char>, ParamDefView)>, user: Seq<(Seq<char>, Seq<char>)>) -> Option<(Seq<char>, Seq<char>, Seq<Seq<char>>)>
    decreases user.len(),
{
    if user.len() == 0 {
        None
    } else {
        match param_decl(ps, user[0].0) {
            Some(d) => match d.enum_values {
                Some(vals) => if !vals.contains(user[0].1) {
                    Some((user[0].0, user[0].1, vals))
                } else {
                    bad_choice(ps, user.drop_first())
                },
                None => bad_choice(ps, user.drop_first()),
            },
            None => bad_choice(ps, user.drop_first()),
        }
    }
}

/// Each declared parameter with the value it takes, the given one before its default; a
/// parameter with neither is left out.
pub open spec fn resolve(ps: Seq<(Seq<char>, ParamDefView)>, user: Seq<(Seq<char>, Seq<char>)>) -> Seq<(Seq<char>, Seq<char>)>
    decreases ps.len(),
{
    if ps.len() == 0 {
        Seq::empty()
    } else {
        let rest = resolve(ps.drop_last(), user);
        let n = ps.last().0;
        match lookup(user, n) {
            Some(v) => rest.push((n, v)),
            None => match ps.last().1.default {
                Some(v) => rest.push((n, v)),
                None => rest,
            },
        }
    }
}

/// `ps` with the value of its first pair keyed `key` set to `v`; unchanged without one.
pub open spec fn set_value(ps: Seq<(Seq<char>, Seq<char>)>, key: Seq<char>, v: Seq<char>) -> Seq<(Seq<char>, Seq<char>)>
    decreases ps.len(),
{
    if ps.len() == 0 {
        ps
    } else if ps[0].0 == key {
        ps.update(0, (key, v))
    } else {
        seq![ps[0]] + set_value(ps.drop_first(), key, v)
    }
}

/// The values after the lookup tables are applied in turn: a parameter whose value is a key of
/// its table takes the table's text instead.
pub open spec fn apply_tables(vals: Seq<(Seq<char>, Seq<char>)>, ls: Seq<(Seq<char>, Seq<(Seq<char>, Seq<char>)>)>) -> Seq<(Seq<char>, Seq<char>)>
    decreases ls.len(),
{
    if ls.len() == 0 {
        vals
    } else {
        let r = apply_tables(vals, ls.drop_last());
        match lookup(r, ls.last().0) {
            Some(v) => match lookup(ls.last().1, v) {
                Some(c) => set_value(r, ls.last().0, c),
                None => r,
            },
            None => r,
        }
    }
}

/// One value with the placeholders it holds filled in from `snapshot`, without indenting;
/// a value without `{{` is kept as it is.
pub open spec fn resolve_ref(v: Seq<char>, snapshot: Seq<(Seq<char>, Seq<char>)>) -> Seq<char> {
    if contains(v, "{{"@) {
        filled(regex_pieces(placeholder_pattern(), v), regex_matches(placeholder_pattern(), v), snapshot, false)
    } else {
        v
    }
}

/// Every value with its references to other parameters resolved (one pass, against the
/// values as they stood before it).
pub open spec fn resolve_refs(vals: Seq<(Seq<char>, Seq<char>)>) -> Seq<(Seq<char>, Seq<char>)> {
    vals.map_values(|p: (Seq<char>, Seq<char>)| (p.0, resolve_ref(p.1, vals)))
}

/// What expanding a recipe with the given parameters yields: the template text with its
/// placeholders filled in, or the message of the first check it fails.
pub open spec fn expand_spec(r: RecipeView, raw: Seq<char>, user: Seq<(Seq<char>, Seq<char>)>) -> Result<Seq<char>, Seq<char>> {
    match missing_required(r.params, user) {
        Some(n) => Err(recipe_prefix(r.name) + "missing required parameter '"@ + n + "'"@),
        None => match unknown_param(r.params, user) {
            Some(k) => Err(recipe_prefix(r.name) + "unknown parameter '"@ + k + "'"@),
            None => match bad_choice(r.params, user) {
                Some(b) => Err(recipe_prefix(r.name) + "parameter '"@ + b.0 + "' value '"@ + b.1
                    + "' not in allowed values: "@ + join(b.2, ", "@)),
                None => match regex_error(placeholder_pattern()) {
                    Some(m) => Err(m),
                    None => {
                        let vals = resolve_refs(apply_tables(resolve(r.params, user), r.lookups));
                        Ok(filled(regex_pieces(placeholder_pattern(), raw), regex_matches(placeholder_pattern(), raw), vals, true))
                    },
                },
            },
        },
    }
}

proof fn lemma_lookup_first(ps: Seq<(Seq<char>, Seq<char>)>, key: Seq<char>, j: int, v: Seq<char>)
    requires
        0 <= j < ps.len(),
        ps[j].0 == key,
        forall|k: int| 0 <= k < j ==> #[trigger] ps[k].0 != key,
    ensures
        lookup(ps, key) == Some(ps[j].1),
        set_value(ps, key, v) == ps.update(j, (key, v)),
    decreases j,
{
    if j > 0 {
        let r = ps.drop_first();
        assert forall|k: int| 0 <= k < j - 1 implies #[trigger] r[k].0 != key by {
            assert(r[k] == ps[k + 1]);
        }
        lemma_lookup_first(r, key, j - 1, v);
        assert(ps[0].0 != key);
        assert(seq![ps[0]] + r.update(j - 1, (key, v)) =~= ps.update(j, (key, v)));
    }
}

proof fn lemma_lookup_absent(ps: Seq<(Seq<char>, Seq<char>)>, key: Seq<char>, v: Seq<char>)
    requires
        forall|k: int| 0 <= k < ps.len() ==> #[trigger] ps[k].0 != key,
    ensures
        lookup(ps, key) is None,
        set_value(ps, key, v) == ps,
    decreases ps.len(),
{
    if ps.len() > 0 {
        let r = ps.drop_first();
        assert forall|k: int| 0 <= k < r.len() implies #[trigger] r[k].0 != key by {
            assert(r[k] == ps[k + 1]);
        }
        lemma_lookup_absent(r, key, v);
        assert(ps[0].0 != key);
        assert(seq![ps[0]] + r =~= ps);
    }
}

/// Where the first pair keyed `key` stands, if any.
fn key_position(ps: &Vec<(String, String)>, key: &str) -> (r: Option<usize>)
    ensures
        match r {
            Some(j) => j < ps@.len() && pairs_view(ps@)[j as int].0 == key@
                && forall|k: int| 0 <= k < j ==> #[trigger] pairs_view(ps@)[k].0 != key@,
            None => forall|k: int| 0 <= k < ps@.len() ==> #[trigger] pairs_view(ps@)[k].0 != key@,
        },
{
    let ghost pv = pairs_view(ps@);
    let mut i: usize = 0;
    while i < ps.len()
        invariant
            pv == pairs_view(ps@),
            i <= ps@.len(),
            forall|k: int| 0 <= k < i ==> #[trigger] pv[k].0 != key@,
        decreases ps@.len() - i,
    {
        if str_eq(ps[i].0.as_str(), key) {
            return Some(i);
        }
        i = i + 1;
    }
    None
}

fn find_missing<'a>(params: &'a Vec<(String, ParamDef)>, user: &Vec<(String, String)>) -> (r: Option<&'a String>)
    ensures
        match r {
            Some(n) => missing_required(params_view(params@), pairs_view(user@)) == Some(n@),
            None => missing_required(params_view(params@), pairs_view(user@)) is None,
        },
{
    let ghost pv = params_view(params@);
    let ghost uv = pairs_view(user@);
    let mut i: usize = 0;
    proof { assert(pv.skip(0) =~= pv); }
    while i < params.len()
        invariant
            pv == params_view(params@),
            uv == pairs_view(user@),
            i <= params@.len(),
            missing_required(pv, uv) == missing_required(pv.skip(i as int), uv),
        decreases params@.len() - i,
    {
        proof {
            assert(pv.skip(i as int)[0] == pv[i as int]);
            assert(pv.skip(i as int).drop_first() =~= pv.skip(i + 1));
        }
        let d = &params[i].1;
        if d.required && lookup_value(user, params[i].0.as_str()).is_none() && d.default.is_none() {
            return Some(&params[i].0);
        }
        i = i + 1;
    }
    proof { assert(pv.skip(params@.len() as int) =~= Seq::<(Seq<char>, ParamDefView)>::empty()); }
    None
}

fn find_unknown<'a>(params: &Vec<(String, ParamDef)>, user: &'a Vec<(String, String)>) -> (r: Option<&'a String>)
    ensures
        match r {
            Some(k) => unknown_param(params_view(params@), pairs_view(user@)) == Some(k@),
            None => unknown_param(params_view(params@), pairs_view(user@)) is None,
        },
{
    let ghost pv = params_view(params@);
    let ghost uv = pairs_view(user@);
    let mut i: usize = 0;
    proof { assert(uv.skip(0) =~= uv); }
    while i < user.len()
        invariant
            pv == params_view(params@),
            uv == pairs_view(user@),
            i <= user@.len(),
            unknown_param(pv, uv) == unknown_param(pv, uv.skip(i as int)),
        decreases user@.len() - i,
    {
        proof {
            assert(uv.skip(i as int)[0] == uv[i as int]);
            assert(uv.skip(i as int).drop_first() =~= uv.skip(i + 1));
        }
        if !has_param(params, user[i].0.as_str()) {
            return Some(&user[i].0);
        }
        i = i + 1;
    }
    proof { assert(uv.skip(user@.len() as int) =~= Seq::<(Seq<char>, Seq<char>)>::empty()); }
    None
}

/// Where the first declaration of `name` stands, if any.
fn param_position(params: &Vec<(String, ParamDef)>, name: &str) -> (r: Option<usize>)
    ensures
        match r {
            Some(j) => j < params@.len() && param_decl(params_view(params@), name@) == Some(params@[j as int].1@),
            None => param_decl(params_view(params@), name@) is None,
        },
{
    let ghost pv = params_view(params@);
    let mut i: usize = 0;
    proof { assert(pv.skip(0) =~= pv); }
    while i < params.len()
        invariant
            pv == params_view(params@),
            i <= params@.len(),
            param_decl(pv, name@) == param_decl(pv.skip(i as int), name@),
        decreases params@.len() - i,
    {
        proof {
            assert(pv.skip(i as int)[0] == pv[i as int]);
            assert(pv.skip(i as int).drop_first() =~= pv.skip(i + 1));
        }
        if str_eq(params[i].0.as_str(), name) {
            return Some(i);
        }
        i = i + 1;
    }
    proof { assert(pv.skip(params@.len() as int) =~= Seq::<(Seq<char>, ParamDefView)>::empty()); }
    None
}

fn contains_string(vals: &Vec<String>, v: &str) -> (b: bool)
    ensures
        b == vals.deep_view().contains(v@),
{
    let ghost dv = vals.deep_view();
    let mut i: usize = 0;
    while i < vals.len()
        invariant
            dv == vals.deep_view(),
            dv.len() == vals@.len(),
            i <= vals@.len(),
            forall|k: int| 0 <= k < i ==> #[trigger] dv[k] != v@,
        decreases vals@.len() - i,
    {
        proof { assert(dv[i as int] == vals@[i as int]@); }
        if str_eq(vals[i].as_str(), v) {
            proof { assert(dv[i as int] == v@); }
            return true;
        }
        i = i + 1;
    }
    false
}

/// The first given parameter whose value its declaration does not allow: where it stands
/// among the given ones and where its declaration stands.
fn find_bad_choice<'a>(params: &'a Vec<(String, ParamDef)>, user: &Vec<(String, String)>) -> (r: Option<(usize, &'a Vec<String>)>)
    ensures
        match r {
            Some((u, vals)) => u < user@.len() && bad_choice(params_view(params@), pairs_view(user@)) == Some((
                user@[u as int].0@,
                user@[u as int].1@,
                vals.deep_view(),
            )),
            None => bad_choice(params_view(params@), pairs_view(user@)) is None,
        },
{
    let ghost pv = params_view(params@);
    let ghost uv = pairs_view(user@);
    let mut i: usize = 0;
    proof { assert(uv.skip(0) =~= uv); }
    while i < user.len()
        invariant
            pv == params_view(params@),
            uv == pairs_view(user@),
            i <= user@.len(),
            bad_choice(pv, uv) == bad_choice(pv, uv.skip(i as int)),
        decreases user@.len() - i,
    {
        proof {
            assert(uv.skip(i as int)[0] == uv[i as int]);
            assert(uv.skip(i as int).drop_first() =~= uv.skip(i + 1));
        }
        match param_position(params, user[i].0.as_str()) {
            Some(p) => match &params[p].1.enum_values {
                Some(vals) => {
                    if !contains_string(vals, user[i].1.as_str()) {
                        return Some((i, vals));
                    }
                },
                None => {},
            },
            None => {},
        }
        i = i + 1;
    }
    proof { assert(uv.skip(user@.len() as int) =~= Seq::<(Seq<char>, Seq<char>)>::empty()); }
    None
}

fn resolve_values(params: &Vec<(String, ParamDef)>, user: &Vec<(String, String)>) -> (r: Vec<(String, String)>)
    ensures
        pairs_view(r@) == resolve(params_view(params@), pairs_view(user@)),
{
    let ghost pv = params_view(params@);
    let ghost uv = pairs_view(user@);
    let mut out: Vec<(String, String)> = Vec::new();
    let mut i: usize = 0;
    proof {
        assert(pv.take(0) =~= Seq::<(Seq<char>, ParamDefView)>::empty());
        assert(pairs_view(out@) =~= Seq::<(Seq<char>, Seq<char>)>::empty());
    }
    while i < params.len()
        invariant
            pv == params_view(params@),
            uv == pairs_view(user@),
            i <= params@.len(),
            pairs_view(out@) == resolve(pv.take(i as int), uv),
        decreases params@.len() - i,
    {
        proof {
            assert(pv.take(i + 1).drop_last() =~= pv.take(i as int));
            assert(pv.take(i + 1).last() == pv[i as int]);
        }
        let ghost before = out@;
        let name = &params[i].0;
        match lookup_value(user, name.as_str()) {
            Some(v) => {
                out.push((name.clone(), v.clone()));
                proof { assert(pairs_view(out@) =~= pairs_view(before).push((name@, v@))); }
            },
            None => match &params[i].1.default {
                Some(v) => {
                    out.push((name.clone(), v.clone()));
                    proof { assert(pairs_view(out@) =~= pairs_view(before).push((name@, v@))); }
                },
                None => {},
            },
        }
        i = i + 1;
    }
    proof { assert(pv.take(params@.len() as int) =~= pv); }
    out
}

fn apply_lookup_tables(vals: Vec<(String, String)>, ls: &Vec<(String, Vec<(String, String)>)>) -> (r: Vec<(String, String)>)
    ensures
        pairs_view(r@) == apply_tables(pairs_view(vals@), lookups_view(ls@)),
{
    let ghost v0 = pairs_view(vals@);
    let ghost lv = lookups_view(ls@);
    let mut vals = vals;
    let mut i: usize = 0;
    proof { assert(lv.take(0) =~= Seq::<(Seq<char>, Seq<(Seq<char>, Seq<char>)>)>::empty()); }
    while i < ls.len()
        invariant
            lv == lookups_view(ls@),
            i <= ls@.len(),
            pairs_view(vals@) == apply_tables(v0, lv.take(i as int)),
        decreases ls@.len() - i,
    {
        proof {
            assert(lv.take(i + 1).drop_last() =~= lv.take(i as int));
            assert(lv.take(i + 1).last() == lv[i as int]);
        }
        let ghost cur = pairs_view(vals@);
        let name = &ls[i].0;
        match key_position(&vals, name.as_str()) {
            Some(j) => {
                proof { lemma_lookup_first(cur, name@, j as int, Seq::empty()); }
                match lookup_value(&ls[i].1, vals[j].1.as_str()) {
                    Some(c) => {
                        let c = c.clone();
                        proof { lemma_lookup_first(cur, name@, j as int, c@); }
                        let k = vals[j].0.clone();
                        vals.set(j, (k, c));
                        proof { assert(pairs_view(vals@) =~= cur.update(j as int, (name@, c@))); }
                    },
                    None => {},
                }
            },
            None => {
                proof { lemma_lookup_absent(cur, name@, Seq::empty()); }
            },
        }
        i = i + 1;
    }
    proof { assert(lv.take(ls@.len() as int) =~= lv); }
    vals
}

fn resolve_references(vals: &Vec<(String, String)>) -> (r: Vec<(String, String)>)
    requires
        regex_error(placeholder_pattern()) is None,
    ensures
        pairs_view(r@) == resolve_refs(pairs_view(vals@)),
{
    let ghost vv = pairs_view(vals@);
    let mut out: Vec<(String, String)> = Vec::new();
    let mut i: usize = 0;
    proof { assert(pairs_view(out@) =~= resolve_refs(vv).take(0)); }
    while i < vals.len()
        invariant
            regex_error(placeholder_pattern()) is None,
            vv == pairs_view(vals@),
            i <= vals@.len(),
            pairs_view(out@) == resolve_refs(vv).take(i as int),
        decreases vals@.len() - i,
    {
        let ghost before = out@;
        let v = &vals[i].1;
        let nv = if str_contains(v.as_str(), "{{") {
            substitute(v.as_str(), vals, false)
        } else {
            v.clone()
        };
        proof { assert(nv@ == resolve_ref(vv[i as int].1, vv)); }
        let ghost nvv = nv@;
        let k = vals[i].0.clone();
        proof {
            assert(resolve_refs(vv)[i as int] == (vv[i as int].0, resolve_ref(vv[i as int].1, vv)));
            assert(vv[i as int].0 == k@);
        }
        out.push((k, nv));
        proof {
            assert(pairs_view(out@) =~= pairs_view(before).push((vv[i as int].0, nvv)));
            assert(resolve_refs(vv).take(i + 1) =~= resolve_refs(vv).take(i as int).push(resolve_refs(vv)[i as int]));
        }
        i = i + 1;
    }
    proof { assert(resolve_refs(vv).take(vals@.len() as int) =~= resolve_refs(vv)); }
    out
}

impl Recipe {
    /// Expand the recipe with the given parameter values into its template text with every
    /// placeholder filled in. Refused, in this order: a required parameter that is neither
    /// given nor has a default; a given parameter the recipe does not declare; a value its
    /// declaration does not allow. Otherwise defaults fill in, lookup tables turn values into
    /// content, references between values are resolved once, and the template is filled.
    pub fn expand(&self, user_params: &Vec<(String, String)>) -> (r: Result<String, CoreError>)
        ensures
            match r {
                Ok(s) => expand_spec(self@, self.raw_yaml@, pairs_view(user_params@)) == Ok::<Seq<char>, Seq<char>>(s@),
                Err(e) => expand_spec(self@, self.raw_yaml@, pairs_view(user_params@)) matches Err(m)
                    && e matches CoreError::Recipe(msg) && msg@ == m,
            },
    {
        match find_missing(&self.params, user_params) {
            Some(n) => {
                let mut m = prefix_text(self.name.as_str());
                m.append("missing required parameter '");
                m.append(n.as_str());
                m.append("'");
                return Err(CoreError::Recipe(m));
            },
            None => {},
        }
        match find_unknown(&self.params, user_params) {
            Some(k) => {
                let mut m = prefix_text(self.name.as_str());
                m.append("unknown parameter '");
                m.append(k.as_str());
                m.append("'");
                return Err(CoreError::Recipe(m));
            },
            None => {},
        }
        match find_bad_choice(&self.params, user_params) {
            Some((u, vals)) => {
                let mut m = prefix_text(self.name.as_str());
                m.append("parameter '");
                m.append(user_params[u].0.as_str());
                m.append("' value '");
                m.append(user_params[u].1.as_str());
                m.append("' not in allowed values: ");
                let allowed = join_strings(vals, ", ");
                m.append(allowed.as_str());
                return Err(CoreError::Recipe(m));
            },
            None => {},
        }
        match regex_compile_error(placeholder()) {
            Some(m) => return Err(CoreError::Recipe(m)),
            None => {},
        }
        let resolved = resolve_values(&self.params, user_params);
        let resolved = apply_lookup_tables(resolved, &self.lookups);
        let refs = resolve_references(&resolved);
        Ok(substitute(self.raw_yaml.as_str(), &refs, true))
    }
}

/// How a scalar parameter value given in a policy reads as text: strings as they are,
/// numbers by their digits, booleans as `true` / `false`.
pub open spec fn scalar_text(v: JsonV) -> Option<Seq<char>> {
    match v {
        JsonV::Str(s) => Some(s),
        JsonV::Number(n) => Some(n),
        JsonV::Bool(b) => Some(bool_text(b)),
        _ => None,
    }
}

/// The parameter values of a `params` mapping, or the message for the first that is not a
/// scalar.
pub open spec fn scalar_params(ps: Seq<(Seq<char>, JsonV)>) -> Result<Seq<(Seq<char>, Seq<char>)>, Seq<char>>
    decreases ps.len(),
{
    if ps.len() == 0 {
        Ok(Seq::empty())
    } else {
        match scalar_params(ps.drop_last()) {
            Err(e) => Err(e),
            Ok(acc) => match scalar_text(ps.last().1) {
                Some(t) => Ok(acc.push((ps.last().0, t))),
                None => Err("param '"@ + ps.last().0 + "' value must be a scalar"@),
            },
        }
    }
}

/// The parameters a policy passes to its recipe: none without a `params` key.
pub open spec fn policy_params(policy: JsonV) -> Result<Seq<(Seq<char>, Seq<char>)>, Seq<char>> {
    match policy {
        JsonV::Object(es) => match key_index(es, "params"@) {
            None => Ok(Seq::empty()),
            Some(i) => match es[i].1 {
                JsonV::Object(ps) => scalar_params(ps),
                _ => Err("'params' must be a mapping"@),
            },
        },
        _ => Ok(Seq::empty()),
    }
}

proof fn lemma_scalar_params_err(ps: Seq<(Seq<char>, JsonV)>, n: int)
    requires
        0 <= n <= ps.len(),
        scalar_params(ps.take(n)) is Err,
    ensures
        scalar_params(ps) == scalar_params(ps.take(n)),
    decreases ps.len() - n,
{
    if n < ps.len() {
        assert(ps.take(n + 1).drop_last() =~= ps.take(n));
        lemma_scalar_params_err(ps, n + 1);
    } else {
        assert(ps.take(n) =~= ps);
    }
}

/// The parameter values a policy passes to its recipe, each as text.
pub fn extract_recipe_params(policy: &Json) -> (r: Result<Vec<(String, String)>, CoreError>)
    ensures
        match r {
            Ok(v) => policy_params(jv(*policy)) == Ok::<Seq<(Seq<char>, Seq<char>)>, Seq<char>>(pairs_view(v@)),
            Err(e) => policy_params(jv(*policy)) matches Err(m) && e matches CoreError::Recipe(msg) && msg@ == m,
        },
{
    let mut out: Vec<(String, String)> = Vec::new();
    proof { assert(pairs_view(out@) =~= Seq::<(Seq<char>, Seq<char>)>::empty()); }
    let es = match policy {
        Json::Object(es) => es,
        _ => return Ok(out),
    };
    proof { lemma_jes(es@); }
    let ps = match find_key(es, "params") {
        None => return Ok(out),
        Some(i) => match &es[i].value {
            Json::Object(ps) => ps,
            _ => return Err(CoreError::Recipe("'params' must be a mapping".to_owned())),
        },
    };
    proof { lemma_jes(ps@); }
    let ghost ev = jes(ps@);
    let mut i: usize = 0;
    proof {
        assert(ev.take(0) =~= Seq::<(Seq<char>, JsonV)>::empty());
        assert(policy_params(jv(*policy)) == scalar_params(ev));
    }
    while i < ps.len()
        invariant
            ev == jes(ps@),
            ev.len() == ps@.len(),
            forall|j: int| 0 <= j < ps@.len() ==> #[trigger] ev[j] == (ps@[j].key@, jv(ps@[j].value)),
            i <= ps@.len(),
            scalar_params(ev.take(i as int)) == Ok::<Seq<(Seq<char>, Seq<char>)>, Seq<char>>(pairs_view(out@)),
            policy_params(jv(*policy)) == scalar_params(ev),
        decreases ps@.len() - i,
    {
        proof {
            assert(ev.take(i + 1).drop_last() =~= ev.take(i as int));
            assert(ev.take(i + 1).last() == ev[i as int]);
        }
        let text = match &ps[i].value {
            Json::Str(s) => s.clone(),
            Json::Number(n) => n.clone(),
            Json::Bool(b) => bool_str(*b).to_owned(),
            _ => {
                let mut m = "param '".to_owned();
                m.append(ps[i].key.as_str());
                m.append("' value must be a scalar");
                proof {
                    assert(scalar_text(ev[i as int].1) is None);
                    assert(scalar_params(ev.take(i + 1)) == Err::<Seq<(Seq<char>, Seq<char>)>, Seq<char>>(m@));
                    lemma_scalar_params_err(ev, i + 1);
                }
                return Err(CoreError::Recipe(m));
            },
        };
        let ghost before = out@;
        out.push((ps[i].key.clone(), text));
        proof { assert(pairs_view(out@) =~= pairs_view(before).push((ps@[i as int].key@, scalar_text(jv(ps@[i as int].value))->0))); }
        i = i + 1;
    }
    proof { assert(ev.take(ps@.len() as int) =~= ev); }
    Ok(out)
}

/// The names of the recipes, in order.
pub open spec fn recipe_names(rs: Seq<Recipe>) -> Seq<Seq<char>> {
    rs.map_values(|r: Recipe| r.name@)
}

/// The names of the recipes, each once, in ascending order.
pub fn available_names(recipes: &Vec<Recipe>) -> (r: Vec<String>)
    ensures
        r.deep_view() == sorted_names(recipe_names(recipes@)),
{
    let ghost ns = recipe_names(recipes@);
    let mut out: Vec<String> = Vec::new();
    let mut i: usize = 0;
    proof { assert(out.deep_view() =~= sorted_names(ns.take(0))); }
    while i < recipes.len()
        invariant
            ns == recipe_names(recipes@),
            i <= recipes@.len(),
            out.deep_view() == sorted_names(ns.take(i as int)),
        decreases recipes@.len() - i,
    {
        proof {
            assert(ns.take(i + 1).drop_last() =~= ns.take(i as int));
            assert(ns.take(i + 1).last() == recipes@[i as int].name@);
        }
        insert_name(&mut out, recipes[i].name.as_str());
        i = i + 1;
    }
    proof { assert(ns.take(recipes@.len() as int) =~= ns); }
    out
}

/// Where the last recipe called `name` stands (a later recipe of a name replaces an earlier one).
pub open spec fn last_named(rs: Seq<Recipe>, name: Seq<char>) -> Option<int>
    decreases rs.len(),
{
    if rs.len() == 0 {
        None
    } else if rs.last().name@ == name {
        Some(rs.len() - 1)
    } else {
        last_named(rs.drop_last(), name)
    }
}

fn find_recipe(recipes: &Vec<Recipe>, name: &str) -> (r: Option<usize>)
    ensures
        match r {
            Some(k) => k < recipes@.len() && last_named(recipes@, name@) == Some(k as int),
            None => last_named(recipes@, name@) is None,
        },
{
    let mut i: usize = recipes.len();
    proof { assert(recipes@.take(i as int) =~= recipes@); }
    while i > 0
        invariant
            i <= recipes@.len(),
            last_named(recipes@, name@) == last_named(recipes@.take(i as int), name@),
        decreases i,
    {
        let ghost t = recipes@.take(i as int);
        proof {
            assert(t.last() == recipes@[i - 1]);
            assert(t.drop_last() =~= recipes@.take(i - 1));
        }
        if str_eq(recipes[i - 1].name.as_str(), name) {
            return Some(i - 1);
        }
        i = i - 1;
    }
    None
}

/// What a policy asks of the recipes: nothing when it names none (`Ok(None)`), else the recipe
/// it names, by position among `recipes`, with the expanded template text; or the message
/// that refuses it.
pub open spec fn recipe_request(policy: JsonV, recipes: Seq<Recipe>) -> Result<Option<(int, Seq<char>)>, Seq<char>> {
    match policy {
        JsonV::Object(es) => match key_index(es, "recipe"@) {
            None => Ok(None),
            Some(i) => match es[i].1 {
                JsonV::Str(n) => match last_named(recipes, n) {
                    None => Err("unknown recipe '"@ + n + "'. Available recipes: "@
                        + join(sorted_names(recipe_names(recipes)), ", "@)),
                    Some(k) => if key_index(es, "targets"@) is None {
                        Err("recipe '"@ + n + "' policy must include 'targets'"@)
                    } else {
                        match policy_params(policy) {
                            Err(m) => Err(m),
                            Ok(ps) => match expand_spec(recipes[k]@, recipes[k].raw_yaml@, ps) {
                                Err(m) => Err(m),
                                Ok(t) => Ok(Some((k, t))),
                            },
                        }
                    },
                },
                _ => Err("'recipe' field must be a string"@),
            },
        },
        _ => Ok(None),
    }
}

/// Decide what a policy needs from the recipes: `None` when it names no recipe and is kept
/// as it is; otherwise which recipe it names (the last of that name) and that recipe's
/// template expanded with the policy's `params`. A policy that names a recipe must name it by
/// a string, name one that exists and have `targets`.
pub fn recipe_expansion(policy: &Json, recipes: &Vec<Recipe>) -> (r: Result<Option<(usize, String)>, CoreError>)
    ensures
        match r {
            Ok(None) => recipe_request(jv(*policy), recipes@) == Ok::<Option<(int, Seq<char>)>, Seq<char>>(None),
            Ok(Some((k, t))) => recipe_request(jv(*policy), recipes@) == Ok::<Option<(int, Seq<char>)>, Seq<char>>(Some((k as int, t@))),
            Err(e) => recipe_request(jv(*policy), recipes@) matches Err(m) && e matches CoreError::Recipe(msg) && msg@ == m,
        },
{
    let es = match policy {
        Json::Object(es) => es,
        _ => return Ok(None),
    };
    proof { lemma_jes(es@); }
    let name = match find_key(es, "recipe") {
        None => return Ok(None),
        Some(i) => match &es[i].value {
            Json::Str(n) => n,
            _ => return Err(CoreError::Recipe("'recipe' field must be a string".to_owned())),
        },
    };
    let k = match find_recipe(recipes, name.as_str()) {
        Some(k) => k,
        None => {
            let names = available_names(recipes);
            let mut m = "unknown recipe '".to_owned();
            m.append(name.as_str());
            m.append("'. Available recipes: ");
            let list = join_strings(&names, ", ");
            m.append(list.as_str());
            return Err(CoreError::Recipe(m));
        },
    };
    if find_key(es, "targets").is_none() {
        let mut m = "recipe '".to_owned();
        m.append(name.as_str());
        m.append("' policy must include 'targets'");
        return Err(CoreError::Recipe(m));
    }
    let params = extract_recipe_params(policy)?;
    let text = recipes[k].expand(&params)?;
    Ok(Some((k, text)))
}

/// The entries with `k` taken over from the policy's entries, when the policy has it.
pub open spec fn take_over(es: Seq<(Seq<char>, JsonV)>, policy: Seq<(Seq<char>, JsonV)>, k: Seq<char>) -> Seq<(Seq<char>, JsonV)> {
    match key_index(policy, k) {
        Some(i) => put_entry(es, k, policy[i].1),
        None => es,
    }
}

/// The entries with the policy's own `targets`, `severity`, `name` and `description` put
/// over them, in that order.
pub open spec fn with_policy_fields(es: Seq<(Seq<char>, JsonV)>, policy: JsonV) -> Seq<(Seq<char>, JsonV)> {
    match policy {
        JsonV::Object(pes) => take_over(take_over(take_over(take_over(es, pes, "targets"@), pes, "severity"@), pes, "name"@), pes, "description"@),
        _ => es,
    }
}

/// The policy a recipe expansion yields: the recipe's name and description with the `rules`
/// of the expanded document, then the policy's own fields put over them; or the message
/// when the expanded document is not a mapping or has no `rules`.
pub open spec fn expanded_policy_spec(r: RecipeView, policy: JsonV, parsed: JsonV) -> Result<JsonV, Seq<char>> {
    match parsed {
        JsonV::Object(es) => match key_index(es, "rules"@) {
            None => Err(recipe_prefix(r.name) + "no 'rules' key after expansion"@),
            Some(i) => Ok(JsonV::Object(with_policy_fields(
                seq![("name"@, JsonV::Str(r.name)), ("description"@, JsonV::Str(r.description)), ("rules"@, es[i].1)],
                policy,
            ))),
        },
        _ => Err(recipe_prefix(r.name) + "substituted YAML is not a mapping"@),
    }
}

fn take_over_field(es: &mut Vec<JsonEntry>, policy: &Vec<JsonEntry>, k: &str)
    ensures
        jes(final(es)@) == take_over(jes(old(es)@), jes(policy@), k@),
{
    proof { lemma_jes(policy@); }
    match find_key(policy, k) {
        Some(i) => {
            let v = clone_json(&policy[i].value);
            put_entry_value(es, k, v);
        },
        None => {},
    }
}

impl Recipe {
    /// The policy that replaces one naming this recipe, from the expanded template once parsed
    /// (`parsed`): the recipe's name and description with the parsed `rules`, then the
    /// policy's own `targets`, `severity`, `name` and `description` over them.
    pub fn expanded_policy(&self, policy: &Json, parsed: Json) -> (r: Result<Json, CoreError>)
        ensures
            match r {
                Ok(p) => expanded_policy_spec(self@, jv(*policy), jv(parsed)) == Ok::<JsonV, Seq<char>>(jv(p)),
                Err(e) => expanded_policy_spec(self@, jv(*policy), jv(parsed)) matches Err(m) && e matches CoreError::Recipe(msg)
                    && msg@ == m,
            },
    {
        let ghost pv = jv(parsed);
        let mut es = match parsed {
            Json::Object(es) => es,
            _ => {
                let mut m = prefix_text(self.name.as_str());
                m.append("substituted YAML is not a mapping");
                return Err(CoreError::Recipe(m));
            },
        };
        proof { lemma_jes(es@); }
        let i = match find_key(&es, "rules") {
            Some(i) => i,
            None => {
                let mut m = prefix_text(self.name.as_str());
                m.append("no 'rules' key after expansion");
                return Err(CoreError::Recipe(m));
            },
        };
        let rules = es.remove(i);
        let ghost rv = jv(rules.value);
        let mut out: Vec<JsonEntry> = Vec::new();
        out.push(JsonEntry { key: "name".to_owned(), value: Json::Str(self.name.clone()) });
        out.push(JsonEntry { key: "description".to_owned(), value: Json::Str(self.description.clone()) });
        out.push(JsonEntry { key: "rules".to_owned(), value: rules.value });
        proof {
            lemma_jes(out@);
            assert(jes(out@) =~= seq![("name"@, JsonV::Str(self.name@)), ("description"@, JsonV::Str(self.description@)), ("rules"@, rv)]);
        }
        match policy {
            Json::Object(pes) => {
                take_over_field(&mut out, pes, "targets");
                take_over_field(&mut out, pes, "severity");
                take_over_field(&mut out, pes, "name");
                take_over_field(&mut out, pes, "description");
            },
            _ => {},
        }
        Ok(Json::Object(out))
    }
}

/// The policy list of a merged configuration, when it has one.
pub open spec fn policy_list(merged: JsonV) -> Option<Seq<JsonV>> {
    match merged {
        JsonV::Object(es) => match key_index(es, "policies"@) {
            Some(i) => match es[i].1 {
                JsonV::Array(ps) => Some(ps),
                _ => None,
            },
            None => None,
        },
        _ => None,
    }
}

/// The merged configuration with `ps` in place of its `policies` value (unchanged without
/// that key).
pub open spec fn with_policy_list(merged: JsonV, ps: Seq<JsonV>) -> JsonV {
    match merged {
        JsonV::Object(es) => match key_index(es, "policies"@) {
            Some(i) => JsonV::Object(es.update(i, (es[i].0, JsonV::Array(ps)))),
            None => merged,
        },
        _ => merged,
    }
}

/// Take the policy list out of a merged configuration, leaving an empty list in its place;
/// when there is no list the configuration comes back as it was, with `None`.
pub fn take_policies(merged: Json) -> (r: (Json, Option<Vec<Json>>))
    ensures
        match r.1 {
            Some(ps) => policy_list(jv(merged)) == Some(jvs(ps@)) && jv(r.0) == with_policy_list(jv(merged), Seq::empty()),
            None => policy_list(jv(merged)) is None && jv(r.0) == jv(merged),
        },
{
    let ghost mv = jv(merged);
    match merged {
        Json::Object(es) => {
            proof { lemma_jes(es@); }
            match find_key(&es, "policies") {
                Some(i) => {
                    let mut es = es;
                    let ghost before = es@;
                    let e = es.remove(i);
                    match e.value {
                        Json::Array(ps) => {
                            let empty: Vec<Json> = Vec::new();
                            proof { assert(jvs(empty@) =~= Seq::<JsonV>::empty()); }
                            es.insert(i, JsonEntry { key: e.key, value: Json::Array(empty) });
                            proof {
                                lemma_jes(es@);
                                assert(jes(es@) =~= jes(before).update(i as int, (jes(before)[i as int].0, JsonV::Array(Seq::empty()))));
                            }
                            (Json::Object(es), Some(ps))
                        },
                        other => {
                            es.insert(i, JsonEntry { key: e.key, value: other });
                            proof { assert(es@ =~= before); }
                            (Json::Object(es), None)
                        },
                    }
                },
                None => (Json::Object(es), None),
            }
        },
        other => (other, None),
    }
}

/// Put a policy list into a merged configuration in place of its `policies` value
/// (unchanged without that key).
pub fn put_policies(merged: Json, ps: Vec<Json>) -> (r: Json)
    ensures
        jv(r) == with_policy_list(jv(merged), jvs(ps@)),
{
    match merged {
        Json::Object(es) => {
            proof { lemma_jes(es@); }
            match find_key(&es, "policies") {
                Some(i) => {
                    let mut es = es;
                    let ghost before = es@;
                    let ghost psv = jvs(ps@);
                    let e = es.remove(i);
                    es.insert(i, JsonEntry { key: e.key, value: Json::Array(ps) });
                    proof {
                        lemma_jes(es@);
                        assert(jes(es@) =~= jes(before).update(i as int, (jes(before)[i as int].0, JsonV::Array(psv))));
                    }
                    Json::Object(es)
                },
                None => Json::Object(es),
            }
        },
        other => other,
    }
}

/// Putting a policy list back in place of the list that was taken out gives the configuration
/// with just its `policies` value replaced.
pub proof fn law_put_after_take(merged: JsonV, ps: Seq<JsonV>)
    ensures
        with_policy_list(with_policy_list(merged, Seq::empty()), ps) == with_policy_list(merged, ps),
{
    match merged {
        JsonV::Object(es) => match key_index(es, "policies"@) {
            Some(i) => {
                lemma_key_index_in_range(es, "policies"@);
                let fs = es.update(i, (es[i].0, JsonV::Array(Seq::empty())));
                lemma_key_index_keys_same(es, fs, "policies"@);
                assert(fs.update(i, (fs[i].0, JsonV::Array(ps))) =~= es.update(i, (es[i].0, JsonV::Array(ps))));
            },
            None => {},
        },
        _ => {},
    }
}

proof fn lemma_take_over_values(es: Seq<(Seq<char>, JsonV)>, pes: Seq<(Seq<char>, JsonV)>, k: Seq<char>, k2: Seq<char>)
    ensures
        entry_value(pes, k) matches Some(v) ==> entry_value(take_over(es, pes, k), k) == Some(v),
        k2 != k ==> entry_value(take_over(es, pes, k), k2) == entry_value(es, k2),
{
    match key_index(pes, k) {
        Some(i) => lemma_put_entry_values(es, k, pes[i].1, k2),
        None => {},
    }
}

/// A policy that names a recipe keeps its own `targets`, `severity`, `name` and
/// `description`: each one it sets replaces what the recipe gives.
pub proof fn law_policy_fields_override(r: RecipeView, policy: Seq<(Seq<char>, JsonV)>, parsed: JsonV, k: Seq<char>)
    requires
        k == "targets"@ || k == "severity"@ || k == "name"@ || k == "description"@,
        entry_value(policy, k) is Some,
        expanded_policy_spec(r, JsonV::Object(policy), parsed) is Ok,
    ensures
        expanded_policy_spec(r, JsonV::Object(policy), parsed) matches Ok(JsonV::Object(es))
            && entry_value(es, k) == entry_value(policy, k),
{
    reveal_strlit("targets");
    reveal_strlit("severity");
    reveal_strlit("name");
    reveal_strlit("description");
    let pes = parsed->Object_0;
    let i = key_index(pes, "rules"@)->0;
    let base = seq![("name"@, JsonV::Str(r.name)), ("description"@, JsonV::Str(r.description)), ("rules"@, pes[i].1)];
    let t1 = take_over(base, policy, "targets"@);
    let t2 = take_over(t1, policy, "severity"@);
    let t3 = take_over(t2, policy, "name"@);
    let t4 = take_over(t3, policy, "description"@);
    lemma_take_over_values(base, policy, "targets"@, k);
    lemma_take_over_values(t1, policy, "severity"@, k);
    lemma_take_over_values(t2, policy, "name"@, k);
    lemma_take_over_values(t3, policy, "description"@, k);
}

} // verus!
