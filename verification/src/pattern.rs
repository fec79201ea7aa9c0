//! Host patterns: regular expressions that are searched for in a host name.

use vstd::prelude::*;

verus! {

#[verifier::external_type_specification]
#[verifier::external_body]
pub struct ExPatternError(regex::Error);

/// Whether `regex::Regex::new` accepts `pattern` as a regular expression.
pub uninterp spec fn pattern_compiles(pattern: Seq<char>) -> bool;

/// Whether the regular expression compiled from `pattern` has a match
/// anywhere in `text`, as `regex::Regex::is_match` reports it.
pub uninterp spec fn pattern_found_in(pattern: Seq<char>, text: Seq<char>) -> bool;

/// Compiles `pattern` with `regex::Regex::new` and searches `text` with
/// `regex::Regex::is_match`. The compiled expression does not leave this
/// function, so that the answer is one of the two texts alone.
///
/// Trusted: the compilation fails exactly on the patterns that
/// `pattern_compiles` excludes, and on the others the answer is the one that
/// `pattern_found_in` names. Neither call panics.
#[verifier::external_body]
fn search(pattern: &str, text: &str) -> (res: Result<bool, regex::Error>)
    ensures
        res is Ok <==> pattern_compiles(pattern@),
        res matches Ok(found) ==> found == pattern_found_in(pattern@, text@),
{
    let compiled = regex::Regex::new(pattern)?;
    Ok(compiled.is_match(text))
}

/// The outcome of searching a host pattern in a host name.
#[derive(Clone, Copy, Debug, PartialEq, Eq, Structural)]
pub enum PatternMatch {
    /// The pattern is not a regular expression.
    Invalid,
    /// The pattern is a regular expression and does not occur in the text.
    Absent,
    /// The pattern is a regular expression and occurs in the text.
    Found,
}

/// The outcome that the regular expression engine gives for `pattern` and `text`.
pub open spec fn spec_match_pattern(pattern: Seq<char>, text: Seq<char>) -> PatternMatch {
    if !pattern_compiles(pattern) {
        PatternMatch::Invalid
    } else if pattern_found_in(pattern, text) {
        PatternMatch::Found
    } else {
        PatternMatch::Absent
    }
}

/// Searches `text` for the regular expression `pattern` (unanchored).
pub fn match_pattern(pattern: &str, text: &str) -> (res: PatternMatch)
    ensures
        res == spec_match_pattern(pattern@, text@),
{
    match search(pattern, text) {
        Ok(true) => PatternMatch::Found,
        Ok(false) => PatternMatch::Absent,
        Err(_) => PatternMatch::Invalid,
    }
}

} // verus!
