//! Regular-expression matching of export names, done by the `regex` crate.
//!
//! Verus does not look into that crate. What this module says of it is
//! trusted: that compiling a pattern and matching an expression against a text
//! are functions of their arguments. Which patterns compile and what they
//! match is for the `regex` crate to say.

use regex::Regex;
use vstd::prelude::*;

verus! {

/// A compiled regular expression of the `regex` crate, carried from
/// `Regex::new` to `Regex::is_match`.
#[verifier::external_type_specification]
#[verifier::external_body]
pub struct ExRegex(regex::Regex);

/// The error of the `regex` crate for a pattern that does not compile.
#[verifier::external_type_specification]
#[verifier::external_body]
pub struct ExRegexError(regex::Error);

/// What `Regex::new` makes of a pattern: the compiled expression, or nothing
/// where it rejects the pattern.
pub uninterp spec fn regex_compiled(pattern: Seq<char>) -> Option<Regex>;

/// Whether `Regex::is_match` finds a match of the expression anywhere in the
/// text.
pub uninterp spec fn regex_accepts(re: Regex, text: Seq<char>) -> bool;

/// A pattern is valid when it compiles.
pub open spec fn pattern_is_valid(pattern: Seq<char>) -> bool {
    regex_compiled(pattern) is Some
}

/// A pattern matches a name when it compiles and the compiled expression
/// finds a match anywhere in the name.
pub open spec fn pattern_matches(pattern: Seq<char>, name: Seq<char>) -> bool {
    regex_compiled(pattern) matches Some(re) && regex_accepts(re, name)
}

/// Calls `regex::Regex::new`, which compiles a pattern or returns an error
/// for a pattern that is invalid or too large. The contract claims that the
/// outcome is a function of the pattern's text: the same text gives the same
/// expression, or is rejected, every time.
#[verifier::external_body]
pub(crate) fn compile_pattern(pattern: &str) -> (r: Result<Regex, regex::Error>)
    ensures
        r matches Ok(re) ==> regex_compiled(pattern@) == Some(re),
        r is Err ==> regex_compiled(pattern@) is None,
{
    Regex::new(pattern)
}

/// Calls `regex::Regex::is_match`, which tells whether the expression
/// matches anywhere in the text. The contract claims that the answer is a
/// function of the expression and the text.
#[verifier::external_body]
pub(crate) fn expression_accepts(re: &Regex, text: &str) -> (b: bool)
    ensures
        b == regex_accepts(*re, text@),
{
    re.is_match(text)
}

} // verus!
