//! Compiled text patterns for the filter engine, through the regex crate.
//!
//! Compilation and matching are outside calls; what they return is named
//! here and everything built on top of them is verified against those
//! names.

use vstd::prelude::*;

verus! {

#[verifier::external_type_specification]
#[verifier::external_body]
pub struct ExRegex(regex::Regex);

/// Whether `RegexBuilder::build` accepts `pattern` (with the given case
/// mode): a function of the pattern text alone.
pub uninterp spec fn regex_compile_ok(pattern: Seq<char>, case_insensitive: bool) -> bool;

/// What `Regex::is_match` returns: a function of the compiled pattern and
/// the text alone.
pub uninterp spec fn regex_match_of(re: regex::Regex, text: Seq<char>) -> bool;

/// Relies on `regex::RegexBuilder` (`new`, `case_insensitive`, `build`):
/// compiles `pattern`, returning `None` exactly on the patterns the crate
/// rejects; compilation is deterministic in the pattern and case mode.
#[verifier::external_body]
pub(crate) fn compile_regex(pattern: &str, case_insensitive: bool) -> (r: Option<regex::Regex>)
    ensures
        (r is Some) == regex_compile_ok(pattern@, case_insensitive),
{
    regex::RegexBuilder::new(pattern).case_insensitive(case_insensitive).build().ok()
}

/// Relies on `regex::Regex::is_match`: whether the compiled pattern
/// matches anywhere in `text`, a function of the two alone.
#[verifier::external_body]
pub(crate) fn regex_is_match(re: &regex::Regex, text: &str) -> (r: bool)
    ensures
        r == regex_match_of(*re, text@),
{
    re.is_match(text)
}

} // verus!
