//! The regular-expression engine of `lazy_regex` (the `regex` crate that it
//! re-exports), and `str::to_lowercase`, behind trusted items.
//!
//! What a regular expression matches is not restated here: the results are
//! given names, which the contracts of the extractors speak of.

use vstd::prelude::*;
use crate::text::is_infix;

verus! {

/// The capture groups that `lazy_regex::Regex::captures` reports for
/// `pattern` (compiled with the given case-insensitivity flag) on `haystack`:
/// `None` when nothing matches (or the pattern does not compile), otherwise one
/// entry per group, group 0 first, `None` for a group that took no part.
pub uninterp spec fn regex_captures_of(
    pattern: Seq<char>,
    case_insensitive: bool,
    haystack: Seq<char>,
) -> Option<Seq<Option<Seq<char>>>>;

/// What `lazy_regex::Regex::replace_all` makes of `haystack` when every match
/// of `pattern` (compiled with the given case-insensitivity flag) is replaced by
/// `replacement` (`haystack` itself when the pattern does not compile).
pub uninterp spec fn regex_replace_all_of(
    pattern: Seq<char>,
    case_insensitive: bool,
    haystack: Seq<char>,
    replacement: Seq<char>,
) -> Seq<char>;

/// What `str::to_lowercase` makes of `s` (Unicode lowercase mapping).
pub uninterp spec fn lowercase_of(s: Seq<char>) -> Seq<char>;

/// The texts of a list of capture groups.
pub open spec fn group_views<'a>(groups: Seq<Option<&'a str>>) -> Seq<Option<Seq<char>>> {
    groups.map_values(
        |g: Option<&'a str>|
            match g {
                Some(t) => Some(t@),
                None => None,
            },
    )
}

/// Trusted: compiles `pattern` with `lazy_regex::RegexBuilder` (case-insensitive
/// as asked, the way the `lazy_regex` macros build their regexes) and runs
/// `Regex::captures` on `haystack`, handing out each group as the slice of
/// `haystack` that it matched. The contract claims that the result is the named
/// `regex_captures_of` of the arguments, and what the `regex` documentation
/// promises of `Captures`: group 0 is always present, and every group's text is
/// a piece of the haystack.
#[verifier::external_body]
pub(crate) fn regex_captures<'a>(pattern: &str, case_insensitive: bool, haystack: &'a str) -> (r:
    Option<Vec<Option<&'a str>>>)
    ensures
        match r {
            None => regex_captures_of(pattern@, case_insensitive, haystack@) is None,
            Some(c) => regex_captures_of(pattern@, case_insensitive, haystack@) == Some(
                group_views(c@),
            ),
        },
        r matches Some(c) ==> c@.len() >= 1 && c@[0] is Some,
        r matches Some(c) ==> forall|k: int|
            0 <= k < c@.len() && #[trigger] c@[k] is Some ==> is_infix(c@[k]->0@, haystack@),
{
    match lazy_regex::RegexBuilder::new(pattern).case_insensitive(case_insensitive).build() {
        Ok(re) => re.captures(haystack).map(|caps| caps.iter().map(|g| g.map(|m| m.as_str())).collect()),
        Err(_) => None,
    }
}

/// Trusted: compiles `pattern` with `lazy_regex::RegexBuilder` (case-insensitive
/// as asked) and returns `Regex::replace_all(haystack, replacement)` as an owned
/// string (the haystack unchanged if the pattern does not compile). The contract
/// claims only that the result is the named `regex_replace_all_of` of the
/// arguments.
#[verifier::external_body]
pub(crate) fn regex_replace_all(
    pattern: &str,
    case_insensitive: bool,
    haystack: &str,
    replacement: &str,
) -> (r: String)
    ensures
        r@ == regex_replace_all_of(pattern@, case_insensitive, haystack@, replacement@),
{
    match lazy_regex::RegexBuilder::new(pattern).case_insensitive(case_insensitive).build() {
        Ok(re) => re.replace_all(haystack, replacement).into_owned(),
        Err(_) => haystack.to_string(),
    }
}

/// Trusted: `str::to_lowercase`. The contract claims only that the result is
/// the named `lowercase_of` of the argument.
#[verifier::external_body]
pub(crate) fn to_lowercase(s: &str) -> (r: String)
    ensures
        r@ == lowercase_of(s@),
{
    s.to_lowercase()
}

} // verus!
