use regex::Regex;
use vstd::prelude::*;

verus! {

/// Whether `pattern` is a regular expression that compiles.
pub uninterp spec fn pattern_compiles(pattern: Seq<char>) -> bool;

/// Whether the regular expression `pattern` matches somewhere in `text`.
pub uninterp spec fn pattern_matches(pattern: Seq<char>, text: Seq<char>) -> bool;

/// `Regex::new` on `pattern`, then `Regex::is_match` on `text`: the error
/// of the first where the pattern does not compile, else whether the
/// compiled expression matches anywhere in `text`.
#[verifier::external_body]
pub(crate) fn try_match(pattern: &str, text: &str) -> (verdict: Result<bool, regex::Error>)
    ensures
        verdict is Ok == pattern_compiles(pattern@),
        verdict matches Ok(found) ==> found == pattern_matches(pattern@, text@),
{
    match Regex::new(pattern) {
        Ok(compiled) => Ok(compiled.is_match(text)),
        Err(error) => Err(error),
    }
}

} // verus!
