//! Recovery of the title from what is left of a release name once every
//! piece of metadata has been taken out.

use vstd::prelude::*;
use crate::pattern::{regex_replace_all, regex_replace_all_of};
use crate::text::{trim, trim_spec, is_trimmed};

verus! {

/// Any term in brackets (case-insensitive).
pub const BRACKETED_TERM_PATTERN: &'static str = r#"[\{\[\(]([^\{\[\(\)\]\}]*)[ \)\]\}]"#;

/// A trailing "complete" keyword that stands as a word of its own (it begins
/// at a word boundary, so the end of "Incomplete" is left alone), with the
/// whitespace around it (case-insensitive).
pub const COMPLETE_KEYWORD_PATTERN: &'static str = r#"\s*\bcomplete\s*$"#;

/// A `|` or `/` and everything after it: of several titles, only the first
/// one is kept.
pub const ALTERNATIVE_TITLES_PATTERN: &'static str = r#"[\|\/].*"#;

/// Leading or trailing runs of non-word characters, except `?` and `!`.
pub const EDGE_PUNCTUATION_PATTERN: &'static str = r#"^[^\w?!]+|[^\w?!]+$"#;

/// A run of whitespace, which collapses into a single space.
pub const WHITESPACE_RUN_PATTERN: &'static str = r#"\s+"#;

/// The title left by the five replacements, in order, then trimmed.
pub open spec fn cleanup_spec(s: Seq<char>) -> Seq<char> {
    let a = regex_replace_all_of(BRACKETED_TERM_PATTERN@, true, s, ""@);
    let b = regex_replace_all_of(COMPLETE_KEYWORD_PATTERN@, true, a, ""@);
    let c = regex_replace_all_of(ALTERNATIVE_TITLES_PATTERN@, false, b, ""@);
    let d = regex_replace_all_of(EDGE_PUNCTUATION_PATTERN@, false, c, ""@);
    let e = regex_replace_all_of(WHITESPACE_RUN_PATTERN@, false, d, " "@);
    trim_spec(e)
}

/// Cleanup whatever's left after all the processing: removes bracketed terms,
/// a trailing "complete" keyword (a word of its own, never the end of a longer
/// word such as "Incomplete"), every title after the first (`|` or `/`), leading and
/// trailing punctuation, and collapses whitespace.
///
/// It's VERY important that this function is called last, after all the
/// processing is done.
pub fn cleanup(s: &str) -> (r: String)
    ensures
        r@ == cleanup_spec(s@),
        is_trimmed(r@),
{
    let a = regex_replace_all(BRACKETED_TERM_PATTERN, true, s, "");
    let b = regex_replace_all(COMPLETE_KEYWORD_PATTERN, true, a.as_str(), "");
    let c = regex_replace_all(ALTERNATIVE_TITLES_PATTERN, false, b.as_str(), "");
    let d = regex_replace_all(EDGE_PUNCTUATION_PATTERN, false, c.as_str(), "");
    let e = regex_replace_all(WHITESPACE_RUN_PATTERN, false, d.as_str(), " ");
    trim(e.as_str()).to_owned()
}


/// Bracketed terms are removed first: the title depends on the name only
/// through what is left of it once its bracketed terms are removed, so a `|`
/// or `/` inside a bracketed term never cuts the title.
pub proof fn lemma_cleanup_removes_bracketed_terms_first(s1: Seq<char>, s2: Seq<char>)
    requires
        regex_replace_all_of(BRACKETED_TERM_PATTERN@, true, s1, ""@) == regex_replace_all_of(
            BRACKETED_TERM_PATTERN@,
            true,
            s2,
            ""@,
        ),
    ensures
        cleanup_spec(s1) == cleanup_spec(s2),
{
}

/// The trailing "complete" keyword is removed before the title is cut at `|`
/// or `/`: the title depends on the name only through what is left once its
/// bracketed terms and then that keyword are removed.
pub proof fn lemma_cleanup_removes_keyword_before_cut(s1: Seq<char>, s2: Seq<char>)
    requires
        regex_replace_all_of(
            COMPLETE_KEYWORD_PATTERN@,
            true,
            regex_replace_all_of(BRACKETED_TERM_PATTERN@, true, s1, ""@),
            ""@,
        ) == regex_replace_all_of(
            COMPLETE_KEYWORD_PATTERN@,
            true,
            regex_replace_all_of(BRACKETED_TERM_PATTERN@, true, s2, ""@),
            ""@,
        ),
    ensures
        cleanup_spec(s1) == cleanup_spec(s2),
{
}

/// The last steps collapse whitespace runs into single spaces and then trim:
/// the title is the trimmed result of that collapse on some text.
pub proof fn lemma_cleanup_ends_with_collapse_and_trim(s: Seq<char>)
    ensures
        exists|x: Seq<char>|
            cleanup_spec(s) == trim_spec(
                #[trigger] regex_replace_all_of(WHITESPACE_RUN_PATTERN@, false, x, " "@),
            ),
{
    let a = regex_replace_all_of(BRACKETED_TERM_PATTERN@, true, s, ""@);
    let b = regex_replace_all_of(COMPLETE_KEYWORD_PATTERN@, true, a, ""@);
    let c = regex_replace_all_of(ALTERNATIVE_TITLES_PATTERN@, false, b, ""@);
    let d = regex_replace_all_of(EDGE_PUNCTUATION_PATTERN@, false, c, ""@);
    assert(cleanup_spec(s) == trim_spec(regex_replace_all_of(WHITESPACE_RUN_PATTERN@, false, d, " "@)));
}

} // verus!
