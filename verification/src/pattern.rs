//! URL patterns: the regular-expression engine that compiles a pattern once
//! and matches it against request URLs.

use regex::Regex;
use vstd::prelude::*;

verus! {

/// The compiled regular expression of the `regex` crate.
#[verifier::external_type_specification]
#[verifier::external_body]
pub struct ExRegex(regex::Regex);

/// The regular expression that `Regex::new` builds from a pattern, or `None`
/// where it rejects the pattern.
pub uninterp spec fn compiled(pattern: Seq<char>) -> Option<Regex>;

/// Whether `Regex::is_match` finds a match of the expression anywhere in the
/// text.
pub uninterp spec fn regex_matches(re: Regex, text: Seq<char>) -> bool;

/// The pattern text that `Regex::as_str` reports for the expression.
pub uninterp spec fn regex_source(re: Regex) -> Seq<char>;

/// The prefix that switches a pattern to case-insensitive matching.
pub open spec fn caseless_prefix() -> Seq<char> {
    "(?i)"@
}

/// `Regex::new`, with its error dropped. The result depends on the pattern
/// alone: it is the expression named by `compiled`, which remembers the
/// pattern it was built from. The case-insensitivity prefix with nothing
/// behind it is a valid expression.
#[verifier::external_body]
pub(crate) fn compile(pattern: &str) -> (r: Option<Regex>)
    ensures
        r == compiled(pattern@),
        r matches Some(re) ==> regex_source(re) == pattern@,
        pattern@ == caseless_prefix() ==> r is Some,
{
    Regex::new(pattern).ok()
}

/// `Regex::is_match` depends on the expression and the text alone.
pub assume_specification[ Regex::is_match ](re: &Regex, haystack: &str) -> (b: bool)
    ensures
        b == regex_matches(*re, haystack@),
;

/// `Regex::as_str` returns the pattern the expression was built from.
pub assume_specification<'a>[ Regex::as_str ](re: &'a Regex) -> (s: &'a str)
    ensures
        s@ == regex_source(*re),
;

/// The clone of an expression is the same expression: it matches the same
/// texts and reports the same pattern.
pub assume_specification[ <Regex as Clone>::clone ](re: &Regex) -> (r: Regex)
    ensures
        r == *re,
;

} // verus!
