//! The part of the work that the regular-expression engine does: where a
//! pattern matches in a text, what its groups capture, and what lies between
//! the matches.

use vstd::prelude::*;

verus! {

/// What each match of `pattern` in `haystack` captures, match by match from
/// left to right and, within a match, group by group from the whole match
/// on. `None` where the pattern is not a regular expression.
pub uninterp spec fn regex_captures(pattern: Seq<char>, haystack: Seq<char>) -> Option<
    Seq<Seq<Option<Seq<char>>>>,
>;

/// The parts of `haystack` that no match of `pattern` covers, from left to
/// right. `None` where the pattern is not a regular expression.
pub uninterp spec fn regex_gaps(pattern: Seq<char>, haystack: Seq<char>) -> Option<Seq<Seq<char>>>;

/// Compiles `pattern` with `regex::Regex::new` and walks its matches in
/// `haystack` with `Regex::captures_iter`. Trusted: the result is
/// `regex_captures` of the two texts; for each match it holds what
/// `Captures::iter` yields, a group that took no part in the match as `None`.
#[verifier::external_body]
pub(crate) fn captures(pattern: &str, haystack: &str) -> (found: Option<Vec<Vec<Option<String>>>>)
    ensures
        found.deep_view() == regex_captures(pattern@, haystack@),
{
    let re = regex::Regex::new(pattern).ok()?;
    let found = re.captures_iter(haystack);
    Some(found.map(|c| c.iter().map(|g| g.map(|m| m.as_str().to_string())).collect()).collect())
}

/// Compiles `pattern` with `regex::Regex::new` and splits `haystack` at its
/// matches with `Regex::split`. Trusted: the result is `regex_gaps` of the
/// two texts.
#[verifier::external_body]
pub(crate) fn gaps(pattern: &str, haystack: &str) -> (between: Option<Vec<String>>)
    ensures
        between.deep_view() == regex_gaps(pattern@, haystack@),
{
    let re = regex::Regex::new(pattern).ok()?;
    Some(re.split(haystack).map(|s| s.to_string()).collect())
}

/// The `i`-th group of a match, `None` where the match has no such group or
/// the group took no part in it.
pub open spec fn group(groups: Seq<Option<Seq<char>>>, i: int) -> Option<Seq<char>> {
    if 0 <= i < groups.len() {
        groups[i]
    } else {
        None
    }
}

/// The `i`-th group of a match.
pub fn group_of(groups: &Vec<Option<String>>, i: usize) -> (r: Option<&str>)
    ensures
        r.deep_view() == group(groups.deep_view(), i as int),
{
    if i < groups.len() {
        match &groups[i] {
            Some(text) => Some(text.as_str()),
            None => None,
        }
    } else {
        None
    }
}

} // verus!
