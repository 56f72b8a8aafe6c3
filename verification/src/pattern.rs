//! Regular-expression searches, delegated to the `regex` crate.
//!
//! The engine's answers are not modelled here. Each answer has a name, a
//! function of the texts handed to the engine, and the contracts of the rest
//! of the crate speak of those names.

use regex::Regex;
use vstd::prelude::*;

verus! {

/// `regex::Error`: why the engine refused a pattern.
#[verifier::external_type_specification]
#[verifier::external_body]
pub struct ExRegexError(regex::Error);

/// Whether the engine accepts `pattern`: whether `Regex::new` returns `Ok`
/// for it. The engine refuses a pattern that is malformed, and one whose
/// compiled form is larger than the engine's default limit.
pub uninterp spec fn pattern_compiles(pattern: Seq<char>) -> bool;

/// What `Regex::replace_all` returns for a pattern that compiles: `text`
/// with every non-overlapping match of `pattern` replaced by `replacement`.
pub uninterp spec fn replaced_matches(
    pattern: Seq<char>,
    text: Seq<char>,
    replacement: Seq<char>,
) -> Seq<char>;

/// What capture group `group` holds in the match that `Regex::captures`
/// finds for a pattern that compiles: `None` where `pattern` matches nowhere
/// in `text` or the group took no part in the match.
pub uninterp spec fn captured_group(pattern: Seq<char>, text: Seq<char>, group: nat) -> Option<
    Seq<char>,
>;

/// A pattern that the engine refused.
#[derive(Debug, Clone, Copy, PartialEq, Eq, Structural)]
pub struct PatternRefused;

/// The characters of an optional string.
pub open spec fn option_chars(s: Option<String>) -> Option<Seq<char>> {
    match s {
        Some(s) => Some(s@),
        None => None,
    }
}

/// Asks the engine whether it accepts `pattern`, with `Regex::new`. The
/// contract claims no more than that the answer is the engine's.
#[verifier::external_body]
fn accepts(pattern: &str) -> (accepted: bool)
    ensures
        accepted == pattern_compiles(pattern@),
{
    Regex::new(pattern).is_ok()
}

/// Checks that the engine accepts `pattern`.
pub fn ensure_accepted(pattern: &str) -> (out: Result<(), PatternRefused>)
    ensures
        out is Ok <==> pattern_compiles(pattern@),
{
    if accepts(pattern) {
        Ok(())
    } else {
        Err(PatternRefused)
    }
}

/// Compiles `pattern` with `Regex::new` and replaces every match in
/// `haystack` with `Regex::replace_all`. The contract claims that the call
/// fails exactly for the patterns that the engine refuses, and otherwise
/// returns the engine's replacement result for these three texts.
#[verifier::external_body]
pub(crate) fn replace_matches(pattern: &str, haystack: &str, replacement: &str) -> (out: Result<
    String,
    regex::Error,
>)
    ensures
        out is Ok <==> pattern_compiles(pattern@),
        out matches Ok(text) ==> text@ == replaced_matches(pattern@, haystack@, replacement@),
{
    match Regex::new(pattern) {
        Ok(re) => Ok(re.replace_all(haystack, replacement).into_owned()),
        Err(e) => Err(e),
    }
}

/// Compiles `pattern` with `Regex::new`, searches `haystack` with
/// `Regex::captures` and reads one group with `Captures::get`. The contract
/// claims that the call fails exactly for the patterns that the engine
/// refuses, and otherwise returns the text of that group in the engine's
/// match, if there is a match and the group took part in it.
#[verifier::external_body]
pub(crate) fn capture_group(pattern: &str, haystack: &str, group: usize) -> (out: Result<
    Option<String>,
    regex::Error,
>)
    ensures
        out is Ok <==> pattern_compiles(pattern@),
        out matches Ok(found) ==> option_chars(found) == captured_group(
            pattern@,
            haystack@,
            group as nat,
        ),
{
    match Regex::new(pattern) {
        Ok(re) => Ok(
            re.captures(haystack).and_then(|found| found.get(group)).map(
                |part| part.as_str().to_string(),
            ),
        ),
        Err(e) => Err(e),
    }
}

} // verus!
