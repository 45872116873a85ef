//! Process-name patterns: regular expressions of the `regex` crate.
//!
//! A rule keeps its pattern as text; the text stands for the compiled
//! expression, which the `regex` crate builds from it.

use vstd::prelude::*;

verus! {

#[verifier::external_type_specification]
#[verifier::external_body]
pub struct ExRegexError(regex::Error);

/// Whether `regex::Regex::new` accepts the pattern `pattern`.
pub uninterp spec fn regex_accepts(pattern: Seq<char>) -> bool;

/// Whether the expression compiled from `pattern` matches somewhere in
/// `haystack`, as `regex::Regex::is_match` reports it.
pub uninterp spec fn regex_is_match(pattern: Seq<char>, haystack: Seq<char>) -> bool;

/// `regex::Regex::new`. Claimed: it succeeds exactly when `regex_accepts`
/// holds of the pattern, which depends on the pattern alone (the builder's
/// settings are the crate's defaults); the error is the crate's own.
/// What patterns the crate accepts is not stated.
#[verifier::external_body]
pub(crate) fn check_pattern(pattern: &str) -> (r: Result<(), regex::Error>)
    ensures
        r is Ok <==> regex_accepts(pattern@),
{
    match regex::Regex::new(pattern) {
        Ok(_) => Ok(()),
        Err(e) => Err(e),
    }
}

/// `regex::Regex::is_match` on the expression compiled from `pattern`.
/// Claimed: the answer is `regex_is_match` of the pattern and the
/// haystack, a function of the two alone. The regular-expression
/// semantics are not stated.
#[verifier::external_body]
pub(crate) fn pattern_is_match(pattern: &str, haystack: &str) -> (r: bool)
    requires
        regex_accepts(pattern@),
    ensures
        r == regex_is_match(pattern@, haystack@),
{
    match regex::Regex::new(pattern) {
        Ok(re) => re.is_match(haystack),
        Err(_) => false,
    }
}

} // verus!
