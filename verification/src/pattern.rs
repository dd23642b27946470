//! Regular-expression matching, done by the `regex` crate.

use crate::html::option_views;
use regex::Regex;
use vstd::prelude::*;

verus! {

/// What the first match of `pattern` in `haystack` captures: one entry per
/// group of the pattern, group 0 being the whole match, each `Some` with the
/// text that the group matched or `None` where the group took no part.
/// `None` as a whole where nothing matches or `pattern` is no valid pattern.
pub uninterp spec fn regex_captures(pattern: Seq<char>, haystack: Seq<char>) -> Option<
    Seq<Option<Seq<char>>>,
>;

/// `Regex::new`, then `Regex::captures`: the capture groups of the leftmost
/// match of `pattern` in `haystack`, each as an owned string. `None` where
/// the pattern does not compile or nothing matches.
#[verifier::external_body]
pub(crate) fn captures(pattern: &str, haystack: &str) -> (found: Option<Vec<Option<String>>>)
    ensures
        match found {
            Some(groups) => regex_captures(pattern@, haystack@) == Some(option_views(groups@)),
            None => regex_captures(pattern@, haystack@) is None,
        },
{
    let re = Regex::new(pattern).ok()?;
    let caps = re.captures(haystack)?;
    Some(caps.iter().map(|m| m.map(|m| m.as_str().to_string())).collect())
}

/// The text of group `i` of a match, if the match has such a group and the
/// group took part.
pub open spec fn group_text(groups: Seq<Option<Seq<char>>>, i: int) -> Option<Seq<char>> {
    if 0 <= i < groups.len() {
        groups[i]
    } else {
        None
    }
}

/// The characters of group `i` of a match, if the match has such a group and
/// the group took part.
pub fn group(groups: &Vec<Option<String>>, i: usize) -> (r: Option<Vec<char>>)
    ensures
        match r {
            Some(chars) => group_text(option_views(groups@), i as int) == Some(chars@),
            None => group_text(option_views(groups@), i as int) is None,
        },
{
    if i < groups.len() {
        match &groups[i] {
            Some(s) => Some(crate::text::to_chars(s.as_str())),
            None => None,
        }
    } else {
        None
    }
}

} // verus!
