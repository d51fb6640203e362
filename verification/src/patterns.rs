//! Regular expressions, which the `regex` crate matches.

use vstd::prelude::*;
use crate::text::opt_text;

verus! {

/// The texts of the groups of one match.
pub open spec fn groups_said(v: Seq<Option<String>>) -> Seq<Option<Seq<char>>> {
    v.map_values(|g: Option<String>| opt_text(g))
}

/// The texts of the groups of one match, where there is one.
pub open spec fn match_said(m: Option<Vec<Option<String>>>) -> Option<Seq<Option<Seq<char>>>> {
    match m {
        Some(v) => Some(groups_said(v@)),
        None => None,
    }
}

/// The texts of the groups of each match.
pub open spec fn matches_said(v: Seq<Vec<Option<String>>>) -> Seq<Seq<Option<Seq<char>>>> {
    v.map_values(|m: Vec<Option<String>>| groups_said(m@))
}

/// Whether `regex::Regex::new` accepts a pattern.
pub uninterp spec fn regex_compiles(pattern: Seq<char>) -> bool;

/// Whether `regex::Regex::is_match` finds a pattern in a text; a pattern that does not compile is
/// found nowhere.
pub uninterp spec fn regex_found(pattern: Seq<char>, text: Seq<char>) -> bool;

/// The groups of the match that `regex::Regex::captures` finds first, the whole match in front; a
/// pattern that does not compile matches nowhere.
pub uninterp spec fn regex_first(pattern: Seq<char>, text: Seq<char>) -> Option<Seq<Option<Seq<char>>>>;

/// The groups of each match that `regex::Regex::captures_iter` finds, in its order; a pattern that
/// does not compile matches nowhere.
pub uninterp spec fn regex_all(pattern: Seq<char>, text: Seq<char>) -> Seq<Seq<Option<Seq<char>>>>;

/// `regex::Regex::new`: whether a pattern compiles depends on the pattern alone.
#[verifier::external_body]
pub(crate) fn compiles(pattern: &str) -> (r: bool)
    ensures
        r == regex_compiles(pattern@),
{
    regex::Regex::new(pattern).is_ok()
}

/// `regex::Regex::is_match` on the compiled pattern: whether it is found depends on the pattern
/// and the text alone.
#[verifier::external_body]
pub(crate) fn found(pattern: &str, text: &str) -> (r: bool)
    ensures
        r == regex_found(pattern@, text@),
{
    regex::Regex::new(pattern).is_ok_and(|re| re.is_match(text))
}

/// `regex::Regex::captures` on the compiled pattern: the groups depend on the pattern and the text
/// alone.
#[verifier::external_body]
pub(crate) fn first_match(pattern: &str, text: &str) -> (r: Option<Vec<Option<String>>>)
    ensures
        match_said(r) == regex_first(pattern@, text@),
{
    let re = regex::Regex::new(pattern).ok()?;
    let caps = re.captures(text)?;
    Some(caps.iter().map(|g| g.map(|m| m.as_str().to_string())).collect())
}

/// `regex::Regex::captures_iter` on the compiled pattern: the groups and their order depend on the
/// pattern and the text alone.
#[verifier::external_body]
pub(crate) fn all_matches(pattern: &str, text: &str) -> (r: Vec<Vec<Option<String>>>)
    ensures
        matches_said(r@) == regex_all(pattern@, text@),
{
    let Ok(re) = regex::Regex::new(pattern) else {
        return Vec::new();
    };
    re.captures_iter(text)
        .map(|c| c.iter().map(|g| g.map(|m| m.as_str().to_string())).collect())
        .collect()
}

/// The text of a group, where the match has it.
pub open spec fn group_said(m: Seq<Option<Seq<char>>>, i: int) -> Option<Seq<char>> {
    if 0 <= i < m.len() {
        m[i]
    } else {
        None
    }
}

/// The text of a group, or the empty text where the match does not have it.
pub open spec fn group_text(m: Seq<Option<Seq<char>>>, i: int) -> Seq<char> {
    match group_said(m, i) {
        Some(s) => s,
        None => Seq::empty(),
    }
}

/// The text of a group, where the match has it.
pub fn group(m: &Vec<Option<String>>, i: usize) -> (r: Option<String>)
    ensures
        opt_text(r) == group_said(groups_said(m@), i as int),
{
    if i < m.len() {
        crate::text::opt_clone(&m[i])
    } else {
        None
    }
}

/// The text of a group, or the empty text.
pub fn group_or_empty(m: &Vec<Option<String>>, i: usize) -> (r: String)
    ensures
        r@ == group_text(groups_said(m@), i as int),
{
    match group(m, i) {
        Some(s) => s,
        None => String::new(),
    }
}

} // verus!
