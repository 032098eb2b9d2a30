//! Regular expressions of the `regex` crate, as far as the recipe patcher
//! needs them: whether a pattern is found in a line.

use vstd::prelude::*;

verus! {

/// Whether `regex::Regex::new` accepts the pattern.
pub uninterp spec fn pattern_compiles(pattern: Seq<char>) -> bool;

/// Whether the expression that `regex::Regex::new` makes of `pattern`
/// matches anywhere in `text`, as `regex::Regex::is_match` finds it.
pub uninterp spec fn pattern_matches(pattern: Seq<char>, text: Seq<char>) -> bool;

/// `regex::Regex::new`, then `regex::Regex::is_match`: compiles `pattern`
/// and searches `text` for a match. Trusted: the call gives `None` exactly on
/// the patterns that the compiler refuses, and otherwise an answer that
/// depends on the pattern and the text alone. What the answer is on given
/// values is not stated.
#[verifier::external_body]
pub(crate) fn search(pattern: &str, text: &str) -> (r: Option<bool>)
    ensures
        r.is_some() == pattern_compiles(pattern@),
        r matches Some(found) ==> found == pattern_matches(pattern@, text@),
{
    match regex::Regex::new(pattern) {
        Ok(re) => Some(re.is_match(text)),
        Err(_) => None,
    }
}

} // verus!
