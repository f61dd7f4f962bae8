//! Regular expressions, as the `regex` crate compiles and runs them.

use vstd::prelude::*;

verus! {

/// A compiled regular expression of the `regex` crate.
#[verifier::external_type_specification]
#[verifier::external_body]
pub struct ExRegex(regex::Regex);

/// The error with which the `regex` crate refuses a pattern.
#[verifier::external_type_specification]
#[verifier::external_body]
pub struct ExRegexError(regex::Error);

/// Whether `Regex::new` compiles the pattern `p`, under the options and
/// limits that it sets.
pub uninterp spec fn compiles(p: Seq<char>) -> bool;

/// Whether the expression that `Regex::new` compiles from the pattern `p`
/// matches somewhere in `text`.
pub uninterp spec fn found_in(p: Seq<char>, text: Seq<char>) -> bool;

/// Whether the compiled expression `re` matches somewhere in `text`. What an
/// expression matches depends on the options it was built with as well as on
/// its pattern, so this is a name for each expression by itself.
pub uninterp spec fn matched_by(re: regex::Regex, text: Seq<char>) -> bool;

/// `Regex::new`: trusted to accept or refuse a pattern by its text alone, and
/// to build from one pattern expressions that all match the same texts.
pub assume_specification[ regex::Regex::new ](re: &str) -> (r: Result<regex::Regex, regex::Error>)
    ensures
        r is Ok <==> compiles(re@),
        r is Ok ==> forall|text: Seq<char>| #[trigger]
            matched_by(r->Ok_0, text) == found_in(re@, text),
;

/// `Regex::is_match`: trusted to depend on the expression and the text alone.
pub assume_specification[ regex::Regex::is_match ](re: &regex::Regex, haystack: &str) -> (r: bool)
    ensures
        r == matched_by(*re, haystack@),
;

/// Whether `Regex::new` compiles `pattern` to an expression that matches
/// somewhere in `text`.
pub open spec fn finds(pattern: Seq<char>, text: Seq<char>) -> bool {
    compiles(pattern) && found_in(pattern, text)
}

/// Runs an expression on `text`, or reports no match where there is an error
/// in its place.
pub fn run_compiled(compiled: Result<regex::Regex, regex::Error>, text: &str) -> (hit: bool)
    ensures
        hit == match compiled {
            Ok(re) => matched_by(re, text@),
            Err(_) => false,
        },
{
    match compiled {
        Ok(re) => re.is_match(text),
        Err(_) => false,
    }
}

/// Whether `pattern` is a valid expression, compiled as `Regex::new` does it,
/// that matches somewhere in `text`.
pub fn search(pattern: &str, text: &str) -> (hit: bool)
    ensures
        hit == finds(pattern@, text@),
{
    run_compiled(regex::Regex::new(pattern), text)
}

} // verus!
