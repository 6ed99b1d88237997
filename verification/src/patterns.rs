//! Searching texts for patterns.
use regex::Regex;
use vstd::prelude::*;

verus! {

/// Whether a pattern has a match anywhere in a text; nothing where it is no pattern.
pub uninterp spec fn pattern_matches(pattern: Seq<char>, text: Seq<char>) -> Option<bool>;

/// `regex::Regex::new` and, where it takes the pattern, `is_match` on the text. What
/// matches is given a name.
#[verifier::external_body]
pub(crate) fn is_match(pattern: &str, text: &str) -> (r: Option<bool>)
    ensures
        r == pattern_matches(pattern@, text@),
{
    match Regex::new(pattern) {
        Ok(re) => Some(re.is_match(text)),
        Err(_) => None,
    }
}

} // verus!
