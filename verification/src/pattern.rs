//! Searching text with regular expressions.

use vstd::prelude::*;

verus! {

/// What searching a text with a pattern gives: nothing where the pattern is
/// not valid, else nothing where the pattern does not match, else the text
/// of each group of the leftmost match that took part in it, the whole match
/// first and then the groups in the order of their opening brackets.
pub uninterp spec fn regex_captures(pattern: Seq<char>, haystack: Seq<char>) -> Option<Option<Seq<Option<Seq<char>>>>>;

/// The groups of an optional list of optional strings.
pub open spec fn group_texts(groups: Option<Vec<Option<String>>>) -> Option<Seq<Option<Seq<char>>>> {
    match groups {
        Some(list) => Some(Seq::new(list@.len(), |i: int| crate::text::opt_text(list@[i]))),
        None => None,
    }
}

/// Searches `haystack` with `pattern`.
///
/// Calls `regex::Regex::new` on the pattern and `regex::Regex::captures` on
/// the result. The contract names what the two return for the two texts; it
/// claims nothing of which patterns are valid or what they match.
#[verifier::external_body]
pub(crate) fn captures(pattern: &str, haystack: &str) -> (r: Option<Option<Vec<Option<String>>>>)
    ensures
        match r {
            Some(groups) => regex_captures(pattern@, haystack@) == Some(group_texts(groups)),
            None => regex_captures(pattern@, haystack@) is None,
        },
{
    let regex = regex::Regex::new(pattern).ok()?;
    Some(
        regex.captures(haystack).map(
            |found| found.iter().map(|group| group.map(|m| m.as_str().to_owned())).collect(),
        ),
    )
}

} // verus!
