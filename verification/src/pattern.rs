//! Regular expressions, as far as the scanners use them: compiling a pattern
//! and listing its matches in a line of text.
//!
//! Matching is the work of the `regex` crate. Nothing here says which
//! patterns compile or which text a pattern matches: the contracts give these
//! outcomes a name and leave it at that.

use regex::Regex;
use vstd::prelude::*;

verus! {

/// A compiled regular expression. Its inside is not visible to proofs.
#[verifier::external_type_specification]
#[verifier::external_body]
pub struct ExRegex(Regex);

/// The error of a pattern that does not compile.
#[verifier::external_type_specification]
#[verifier::external_body]
pub struct ExRegexError(regex::Error);

/// The pattern text that a compiled expression was made from: what
/// `Regex::as_str` returns for it.
pub uninterp spec fn regex_source(re: Regex) -> Seq<char>;

/// Whether a pattern compiles: whether `Regex::new` returns `Ok` for it.
/// The outcome is a matter of the pattern text and of limits that are fixed
/// when the library is built.
pub uninterp spec fn regex_compiles(pattern: Seq<char>) -> bool;

/// The matches of a compiled expression in a text: what iterating
/// `Regex::captures_iter` yields, one entry for each of the successive
/// non-overlapping matches, and in it one entry for each capture group of the
/// expression in the order of `Captures::iter`, the whole match first: the
/// text that the group matched, or `None` where it took no part.
pub uninterp spec fn regex_captures(re: Regex, haystack: Seq<char>) -> Seq<Seq<Option<Seq<char>>>>;

/// The capture groups of the matches of one search, as plain values.
pub open spec fn groups_view(found: Seq<Vec<Option<String>>>) -> Seq<Seq<Option<Seq<char>>>> {
    found.map_values(|groups: Vec<Option<String>>| groups.deep_view())
}

/// Compiles a pattern.
///
/// Trusted: calls `Regex::new`. The call reads nothing but the pattern, so
/// whether it succeeds has a name and no more is said of it. Where it does,
/// the expression keeps the pattern text it was given, which is what the
/// crate documents of `Regex::as_str`.
#[verifier::external_body]
pub(crate) fn compile(pattern: &str) -> (compiled: Result<Regex, regex::Error>)
    ensures
        compiled is Ok <==> regex_compiles(pattern@),
        compiled matches Ok(re) ==> regex_source(re) == pattern@,
{
    Regex::new(pattern)
}

/// Lists the matches of a compiled expression in a text, each with the text
/// of its capture groups.
///
/// Trusted: calls `Regex::captures_iter`, walks each match with
/// `Captures::iter` and copies out what `Match::as_str` gives for a group
/// that took part. The contract names this outcome and claims nothing about
/// what it holds.
#[verifier::external_body]
pub(crate) fn captures_in(re: &Regex, haystack: &str) -> (found: Vec<Vec<Option<String>>>)
    ensures
        groups_view(found@) == regex_captures(*re, haystack@),
{
    re.captures_iter(haystack).map(
        |caps| caps.iter().map(|group| group.map(|m| m.as_str().to_string())).collect(),
    ).collect()
}

} // verus!
