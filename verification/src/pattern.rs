//! Case-insensitive regular expressions, compiled and run by the `regex`
//! crate. Nothing about regular expressions is proved here: this module
//! gives names to what the crate computes, and the matchers are proved
//! against those names.

use vstd::prelude::*;

verus! {

/// `regex::Regex`, a compiled expression. What it holds is out of sight
/// here: it is known only by what `accepts` says of it.
#[verifier::external_type_specification]
#[verifier::external_body]
pub struct ExRegex(regex::Regex);

/// `regex::Error`, the reason why a text is no expression. The library
/// reads nothing from it.
#[verifier::external_type_specification]
#[verifier::external_body]
pub struct ExRegexError(regex::Error);

/// What `regex::RegexBuilder::build` returns for `pattern` with case
/// insensitivity switched on and every other setting at its default: the
/// compiled expression, or the reason why `pattern` is not one.
pub uninterp spec fn compiled(pattern: Seq<char>) -> Result<regex::Regex, regex::Error>;

/// What `regex::Regex::is_match` returns: whether `re` matches anywhere in
/// `haystack`.
pub uninterp spec fn accepts(re: regex::Regex, haystack: Seq<char>) -> bool;

/// Calls `regex::RegexBuilder::new(pattern)`, then `case_insensitive(true)`
/// and `build()` on it. The outcome depends on `pattern` alone, and
/// `compiled` is the name of it.
#[verifier::external_body]
pub(crate) fn build_case_insensitive(pattern: &str) -> (out: Result<regex::Regex, regex::Error>)
    ensures
        out == compiled(pattern@),
{
    regex::RegexBuilder::new(pattern).case_insensitive(true).build()
}

/// `regex::Regex::is_match` says whether the expression matches anywhere in
/// the haystack. The answer depends on the two alone, and `accepts` is the
/// name of it.
pub assume_specification[ regex::Regex::is_match ](re: &regex::Regex, haystack: &str) -> (out:
    bool)
    ensures
        out == accepts(*re, haystack@),
;

} // verus!
