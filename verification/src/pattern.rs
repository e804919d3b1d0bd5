//! Regular expressions, as the `regex` crate compiles and runs them.
//!
//! Nothing in this module is proved: each function states what the engine is
//! taken to do, and the rest of the library is verified against that.

use crate::text::texts;
use regex::{Regex, RegexBuilder};
use vstd::prelude::*;

verus! {

#[verifier::external_type_specification]
#[verifier::external_body]
pub struct ExRegex(Regex);

#[verifier::external_type_specification]
#[verifier::external_body]
pub struct ExRegexError(regex::Error);

/// The regular expression that the engine compiles from `source`, or `None`
/// where it rejects the pattern.
pub uninterp spec fn regex_build(source: Seq<char>, ignore_case: bool) -> Option<Regex>;

/// Whether `reg` matches anywhere in `haystack`.
pub uninterp spec fn regex_matches(reg: Regex, haystack: Seq<char>) -> bool;

/// The successive non-overlapping matches of `reg` in `haystack`, leftmost first.
pub uninterp spec fn regex_finds(reg: Regex, haystack: Seq<char>) -> Seq<Seq<char>>;

/// Calls `RegexBuilder::new(source).case_insensitive(ignore_case).build()`.
///
/// Compiling depends on the pattern and the flag alone, so the outcome is
/// `regex_build` of the two: the compiled expression, or an error exactly
/// where the engine rejects the pattern.
#[verifier::external_body]
pub(crate) fn build_regex(source: &str, ignore_case: bool) -> (built: Result<Regex, regex::Error>)
    ensures
        match built {
            Ok(reg) => regex_build(source@, ignore_case) == Some(reg),
            Err(_) => regex_build(source@, ignore_case) is None,
        },
{
    RegexBuilder::new(source).case_insensitive(ignore_case).build()
}

/// Calls `Regex::is_match`: true exactly where the expression matches
/// somewhere in `haystack`, which is `regex_matches`.
#[verifier::external_body]
pub(crate) fn is_match(reg: &Regex, haystack: &str) -> (found: bool)
    ensures
        found == regex_matches(*reg, haystack@),
{
    reg.is_match(haystack)
}

/// Calls `Regex::find_iter` and copies out the text of each match, in the
/// order the engine yields them: `regex_finds`.
#[verifier::external_body]
pub(crate) fn find_all(reg: &Regex, haystack: &str) -> (found: Vec<String>)
    ensures
        texts(found@) == regex_finds(*reg, haystack@),
{
    reg.find_iter(haystack).map(|m| m.as_str().to_string()).collect()
}

} // verus!
