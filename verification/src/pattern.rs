//! Regular expressions, through the `regex` crate.

use vstd::prelude::*;

verus! {

/// What `::regex::Regex::new` gives for `pattern`: `None` when it compiles, otherwise the
/// error's message.
pub uninterp spec fn regex_error(pattern: Seq<char>) -> Option<Seq<char>>;

/// Whether the compiled `pattern` matches somewhere in `text` (`regex::Regex::is_match`).
pub uninterp spec fn regex_finds(pattern: Seq<char>, text: Seq<char>) -> bool;

/// The first capture group of the leftmost match of `pattern` in `text`
/// (`regex::Regex::captures`, group 1), if there is a match and the group took part in it.
pub uninterp spec fn regex_first_group(pattern: Seq<char>, text: Seq<char>) -> Option<Seq<char>>;

/// Compiles `pattern` with `::regex::Regex::new`; `None` when it compiles, else the
/// error's text. Trusted: the result is whatever the crate decides for this pattern.
#[verifier::external_body]
pub(crate) fn regex_compile_error(pattern: &str) -> (r: Option<String>)
    ensures
        match r {
            Some(msg) => regex_error(pattern@) == Some(msg@),
            None => regex_error(pattern@) is None,
        },
{
    match ::regex::Regex::new(pattern) {
        Ok(_) => None,
        Err(e) => Some(e.to_string()),
    }
}

/// `regex::Regex::is_match` of the compiled `pattern` on `text`. Trusted: the answer is the
/// crate's, for a pattern that compiles.
#[verifier::external_body]
pub(crate) fn regex_is_match(pattern: &str, text: &str) -> (r: bool)
    requires
        regex_error(pattern@) is None,
    ensures
        r == regex_finds(pattern@, text@),
{
    ::regex::Regex::new(pattern).unwrap().is_match(text)
}

/// Group 1 of `regex::Regex::captures` of the compiled `pattern` on `text`. Trusted: the
/// answer is the crate's, for a pattern that compiles.
#[verifier::external_body]
pub(crate) fn regex_capture_first_group(pattern: &str, text: &str) -> (r: Option<String>)
    requires
        regex_error(pattern@) is None,
    ensures
        match r {
            Some(g) => regex_first_group(pattern@, text@) == Some(g@),
            None => regex_first_group(pattern@, text@) is None,
        },
{
    ::regex::Regex::new(pattern).unwrap().captures(text).and_then(|c| c.get(1)).map(|m| m.as_str().to_string())
}

/// The pieces of `text` between consecutive matches of `pattern`, in order, the first before
/// any match and the last after every match (`regex::Regex::split`).
pub uninterp spec fn regex_pieces(pattern: Seq<char>, text: Seq<char>) -> Seq<Seq<char>>;

/// Each match of `pattern` in `text`, in order, as its capture groups: group 0 (the whole
/// match) first, a group that took no part as `None` (`regex::Regex::captures_iter`).
pub uninterp spec fn regex_matches(pattern: Seq<char>, text: Seq<char>) -> Seq<Seq<Option<Seq<char>>>>;

/// The characters of every group of every match.
pub open spec fn groups_view(ms: Seq<Vec<Option<String>>>) -> Seq<Seq<Option<Seq<char>>>> {
    ms.map_values(|g: Vec<Option<String>>| g@.map_values(|o: Option<String>| match o {
        Some(t) => Some(t@),
        None => None,
    }))
}

/// Group `g` of match `k`, when both exist and the group took part.
pub open spec fn group(ms: Seq<Seq<Option<Seq<char>>>>, k: int, g: int) -> Option<Seq<char>> {
    if 0 <= k < ms.len() && 0 <= g < ms[k].len() { ms[k][g] } else { None }
}

/// Group `g` of match `k` (see [`group`]).
pub fn group_at(ms: &Vec<Vec<Option<String>>>, k: usize, g: usize) -> (r: Option<&String>)
    ensures
        match r {
            Some(t) => group(groups_view(ms@), k as int, g as int) == Some(t@),
            None => group(groups_view(ms@), k as int, g as int) is None,
        },
{
    if k < ms.len() && g < ms[k].len() {
        match &ms[k][g] {
            Some(t) => Some(t),
            None => None,
        }
    } else {
        None
    }
}

/// `regex::Regex::split` of the compiled `pattern` on `text`, each piece copied out. Trusted:
/// the pieces are the crate's, for a pattern that compiles.
#[verifier::external_body]
pub(crate) fn regex_split(pattern: &str, text: &str) -> (r: Vec<String>)
    requires
        regex_error(pattern@) is None,
    ensures
        r.deep_view() == regex_pieces(pattern@, text@),
{
    ::regex::Regex::new(pattern).unwrap().split(text).map(|s| s.to_string()).collect()
}

/// `regex::Regex::captures_iter` of the compiled `pattern` on `text`: per match, every
/// group's text. Trusted: the matches are the crate's, for a pattern that compiles.
#[verifier::external_body]
pub(crate) fn regex_captures_all(pattern: &str, text: &str) -> (r: Vec<Vec<Option<String>>>)
    requires
        regex_error(pattern@) is None,
    ensures
        groups_view(r@) == regex_matches(pattern@, text@),
{
    ::regex::Regex::new(pattern).unwrap().captures_iter(text).map(|c| c.iter().map(|m| m.map(|m| m.as_str().to_string())).collect()).collect()
}

} // verus!
