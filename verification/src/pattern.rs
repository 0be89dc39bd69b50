//! Finding a prefix declaration in query text.
//!
//! The search itself is done by the `regex` crate; everything after the
//! search is verified here.

use vstd::prelude::*;

verus! {

/// A prefix declaration as a regular expression: the keyword, a name made of
/// word characters, a colon, and a namespace IRI between angle brackets.
/// Group 1 is the name, group 2 the namespace.
pub const DECLARATION_PATTERN: &'static str = "PREFIX (\\w+): <([a-zA-Z0-9/:#\\.]+)>";

/// What the `regex` crate reports for `pattern` on `text`: `None` when the
/// pattern does not compile or matches nowhere, otherwise the capture groups
/// of the leftmost match, group 0 (the whole match) first, with `None` for a
/// group that took no part in the match.
pub uninterp spec fn regex_captures(
    pattern: Seq<char>,
    text: Seq<char>,
) -> Option<Seq<Option<Seq<char>>>>;

/// Runs `regex::Regex::new` on `pattern` and `Regex::captures` on `text`, and
/// copies out the text of every group with `Captures::iter` and
/// `Match::as_str`.
///
/// Trusted: the result is a function of the two strings alone, which
/// [`regex_captures`] names. Nothing else is claimed about it.
#[verifier::external_body]
pub(crate) fn leftmost_captures(pattern: &str, text: &str) -> (groups: Option<Vec<Option<String>>>)
    ensures
        groups.deep_view() == regex_captures(pattern@, text@),
{
    let compiled = regex::Regex::new(pattern).ok()?;
    let found = compiled.captures(text)?;
    Some(found.iter().map(|group| group.map(|m| m.as_str().to_owned())).collect())
}

/// The `(name, namespace)` pair that a search result carries: groups 1 and 2
/// of a match that has exactly the whole match and two groups, both present.
pub open spec fn captured_pair(
    groups: Option<Seq<Option<Seq<char>>>>,
) -> Option<(Seq<char>, Seq<char>)> {
    match groups {
        Some(g) => if g.len() == 3 && g[1] is Some && g[2] is Some {
            Some((g[1]->0, g[2]->0))
        } else {
            None
        },
        None => None,
    }
}

/// Extracts the pair described by [`captured_pair`].
pub fn pair_from(groups: Option<Vec<Option<String>>>) -> (pair: Option<(String, String)>)
    ensures
        pair.deep_view() == captured_pair(groups.deep_view()),
{
    match groups {
        Some(mut g) => {
            if g.len() != 3 {
                return None;
            }
            let namespace = g.pop();
            let name = g.pop();
            match (name, namespace) {
                (Some(Some(name)), Some(Some(namespace))) => Some((name, namespace)),
                _ => None,
            }
        },
        None => None,
    }
}

} // verus!
