//! Searching a text for a regular expression.

use vstd::prelude::*;
use crate::models::opt_chars;

verus! {

#[verifier::external_type_specification]
#[verifier::external_body]
pub struct ExRegexError(regex::Error);

/// What the first match of the expression `pattern` in `text` captures:
/// for each group, the whole match being the first, the part of the text
/// that it matched, if it took part. Nothing where the expression matches
/// nowhere. The outer level is empty where `pattern` is no expression that
/// can be compiled.
pub uninterp spec fn regex_first(pattern: Seq<char>, text: Seq<char>) -> Option<
    Option<Seq<Option<Seq<char>>>>,
>;

/// What each match of the expression `pattern` in `text` captures, for the
/// matches from the left that do not overlap. Empty at the outer level
/// where `pattern` is no expression that can be compiled.
pub uninterp spec fn regex_all(pattern: Seq<char>, text: Seq<char>) -> Option<
    Seq<Seq<Option<Seq<char>>>>,
>;

/// `text` with every character escaped that has a meaning in a regular
/// expression.
pub uninterp spec fn regex_escaped(text: Seq<char>) -> Seq<char>;

/// The views of the groups of one match.
pub open spec fn groups_view(groups: Vec<Option<String>>) -> Seq<Option<Seq<char>>> {
    groups@.map_values(|g: Option<String>| opt_chars(g))
}

/// The views of the groups of a match that may be missing.
pub open spec fn match_view(found: Option<Vec<Option<String>>>) -> Option<Seq<Option<Seq<char>>>> {
    match found {
        Some(groups) => Some(groups_view(groups)),
        None => None,
    }
}

/// The views of the groups of several matches.
pub open spec fn matches_view(found: Vec<Vec<Option<String>>>) -> Seq<Seq<Option<Seq<char>>>> {
    found@.map_values(|groups: Vec<Option<String>>| groups_view(groups))
}

/// `Regex::new`, then `Regex::captures`: compiles the expression, which
/// may fail, and gives the groups of its first match in the text, each as
/// the text it matched.
#[verifier::external_body]
pub(crate) fn first_match(pattern: &str, text: &str) -> (r: Result<
    Option<Vec<Option<String>>>,
    regex::Error,
>)
    ensures
        match r {
            Ok(found) => regex_first(pattern@, text@) == Some(match_view(found)),
            Err(_) => regex_first(pattern@, text@) is None,
        },
{
    let re = regex::Regex::new(pattern)?;
    Ok(re.captures(text).map(|c| c.iter().map(|g| g.map(|m| m.as_str().to_string())).collect()))
}

/// `Regex::new`, then `Regex::captures_iter`: compiles the expression,
/// which may fail, and gives the groups of each of its matches in the
/// text, each as the text it matched.
#[verifier::external_body]
pub(crate) fn all_matches(pattern: &str, text: &str) -> (r: Result<
    Vec<Vec<Option<String>>>,
    regex::Error,
>)
    ensures
        match r {
            Ok(found) => regex_all(pattern@, text@) == Some(matches_view(found)),
            Err(_) => regex_all(pattern@, text@) is None,
        },
{
    let re = regex::Regex::new(pattern)?;
    Ok(
        re.captures_iter(text).map(
            |c| c.iter().map(|g| g.map(|m| m.as_str().to_string())).collect(),
        ).collect(),
    )
}

/// `regex::escape`: the text as a literal in a regular expression.
#[verifier::external_body]
pub(crate) fn escape(text: &str) -> (r: String)
    ensures
        r@ == regex_escaped(text@),
{
    regex::escape(text)
}

/// The text that the group `index` of a match captured, if the match has
/// such a group and it took part.
pub open spec fn group_of(groups: Seq<Option<Seq<char>>>, index: int) -> Option<Seq<char>> {
    if 0 <= index < groups.len() {
        groups[index]
    } else {
        None
    }
}

/// Picks the text that one group of a match captured.
pub fn group(groups: &Vec<Option<String>>, index: usize) -> (r: Option<String>)
    ensures
        opt_chars(r) == group_of(groups_view(*groups), index as int),
{
    if index < groups.len() {
        crate::models::clone_opt(&groups[index])
    } else {
        None
    }
}

} // verus!
