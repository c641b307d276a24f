//! The extractors: each one looks for one kind of metadata in a release name
//! and reports the value it found together with the text that it matched.

use vstd::prelude::*;
use crate::pattern::{group_views, lowercase_of, regex_captures, regex_captures_of, to_lowercase};
use crate::text::{
    contains_spec, find_str, is_infix, is_trimmed, lemma_infix_transitive, lemma_trim_idempotent,
    lemma_trim_start_char_first, lemma_trim_within, occurs_at, parse_u16, parse_u8,
    parse_unsigned_spec, all_chars, all_ascii_digits, digits_value, is_ascii_digit,
    lemma_trim_start_char_skips, lemma_digits_value_skip_zeroes, lemma_digits_value_leading_zero, trim, trim_spec, trim_start_char, trim_start_char_spec,
};

verus! {

/// Represents a successfully extracted piece of data.
#[derive(Debug, PartialEq)]
pub struct Extract<'a, T> {
    /// The parsed or cleaned-up value (e.g., "Seven Seas Entertainment").
    pub value: T,
    /// The exact substring from the original string that matched (e.g., "(Seven Seas)").
    pub text: &'a str,
}

/// The value and the matched text of an extraction.
pub open spec fn extract_view<'a, T: View>(r: Option<Extract<'a, T>>) -> Option<(T::V, Seq<char>)> {
    match r {
        Some(e) => Some((e.value@, e.text@)),
        None => None,
    }
}

/// The texts of the groups of a regular-expression match, as handed out.
pub open spec fn captures_view<'a>(caps: Option<Vec<Option<&'a str>>>) -> Option<
    Seq<Option<Seq<char>>>,
> {
    match caps {
        Some(c) => Some(group_views(c@)),
        None => None,
    }
}

/// The text of group `k`, empty when the group took no part in the match (as
/// the `lazy_regex` capture macros report it).
pub open spec fn group(c: Seq<Option<Seq<char>>>, k: int) -> Seq<char> {
    if 0 <= k < c.len() && c[k] is Some {
        c[k]->0
    } else {
        Seq::empty()
    }
}

/// Every group that took part in the match is a piece of `s`.
pub open spec fn groups_within(c: Seq<Option<Seq<char>>>, s: Seq<char>) -> bool {
    forall|k: int| 0 <= k < c.len() && #[trigger] c[k] is Some ==> is_infix(c[k]->0, s)
}

/// The capture groups of `pattern` on `s` are all pieces of `s`.
pub open spec fn captures_within(pattern: Seq<char>, case_insensitive: bool, s: Seq<char>) -> bool {
    regex_captures_of(pattern, case_insensitive, s) matches Some(c) ==> groups_within(c, s)
}

/// Any group's text is a piece of the searched string.
pub proof fn lemma_group_within(c: Seq<Option<Seq<char>>>, s: Seq<char>, k: int)
    requires
        groups_within(c, s),
    ensures
        is_infix(group(c, k), s),
{
    if !(0 <= k < c.len() && c[k] is Some) {
        assert(group(c, k) =~= s.subrange(0, 0));
    }
}

/// The whole match, and the whole match trimmed, are pieces of the searched
/// string.
pub proof fn lemma_trimmed_match_within(c: Seq<Option<Seq<char>>>, s: Seq<char>)
    requires
        groups_within(c, s),
    ensures
        is_infix(group(c, 0), s),
        is_infix(trim_spec(group(c, 0)), s),
{
    lemma_group_within(c, s, 0);
    lemma_trim_within(group(c, 0));
    lemma_infix_transitive(trim_spec(group(c, 0)), group(c, 0), s);
}

fn group_at<'a>(c: &Vec<Option<&'a str>>, k: usize) -> (r: &'a str)
    ensures
        r@ == group(group_views(c@), k as int),
{
    proof {
        reveal_strlit("");
    }
    if k < c.len() {
        match c[k] {
            Some(t) => t,
            None => "",
        }
    } else {
        ""
    }
}

fn search<'a>(pattern: &str, case_insensitive: bool, s: &'a str) -> (r: Option<Vec<Option<&'a str>>>)
    ensures
        captures_view(r) == regex_captures_of(pattern@, case_insensitive, s@),
        captures_within(pattern@, case_insensitive, s@),
        r matches Some(c) ==> c@.len() >= 1 && c@[0] is Some,
{
    let r = regex_captures(pattern, case_insensitive, s);
    proof {
        if r is Some {
            let c = r->0;
            assert forall|k: int|
                0 <= k < group_views(c@).len() && #[trigger] group_views(c@)[k] is Some implies is_infix(
                group_views(c@)[k]->0,
                s@,
            ) by {
                assert(c@[k] is Some);
            }
        }
    }
    r
}

/// Matches a dot, a letter, and 2-5 word characters at the end of the string.
pub const EXTENSION_PATTERN: &'static str = r#"\.([a-z]\w{2,5})$"#;

/// The extension: group 1 lowercased, with the whole match as text.
pub open spec fn extension_spec(c: Option<Seq<Option<Seq<char>>>>) -> Option<(Seq<char>, Seq<char>)> {
    match c {
        Some(g) => Some((lowercase_of(group(g, 1)), group(g, 0))),
        None => None,
    }
}

/// Builds the extension from the groups of a match of `EXTENSION_PATTERN`.
pub fn extension_from_captures<'a>(caps: Option<Vec<Option<&'a str>>>) -> (r: Option<
    Extract<'a, String>,
>)
    ensures
        extract_view(r) == extension_spec(captures_view(caps)),
{
    match caps {
        Some(c) => {
            let text = group_at(&c, 0);
            let ext = group_at(&c, 1);
            Some(Extract { value: to_lowercase(ext), text })
        },
        None => None,
    }
}

/// Extracts the extension of a file.
///
/// Uses a regex to avoid false positives from naive splits or `Path::extension()`,
/// which would take "26" for the extension of "... Vol.26".
///
/// Matches a dot, a letter, and 2-5 word characters at the end of the string,
/// case-insensitive.
pub fn extract_extension(s: &str) -> (r: Option<Extract<'_, String>>)
    ensures
        extract_view(r) == extension_spec(regex_captures_of(EXTENSION_PATTERN@, true, s@)),
        r matches Some(e) ==> is_infix(e.text@, s@),
{
    let caps = search(EXTENSION_PATTERN, true, s);
    proof {
        if caps is Some {
            lemma_group_within(group_views(caps->0@), s@, 0);
        }
    }
    extension_from_captures(caps)
}


/// Volumes written "v01", "v12.5", "v01-02", "001-010 as v01-02" or
/// "v01.24-04.24", optionally followed by " - Title".
///
/// Group 2 is the first volume number, group 5 the second one of a range.
pub const VOLUME_RANGE_PATTERN: &'static str = r#"(\d+-\d+\sas\s)?v(\d+(\.\d+)?)(-(\d+(\.\d+)?))?(\s+-[^\{\[\(\)\]\}\.]*)?"#;

/// Volumes written "Vol. 1", "Volume 02" or "Vol 26", optionally followed by
/// " - Title". Group 1 is the volume number.
pub const VOLUME_WORD_PATTERN: &'static str = r#"Vol(?:ume)?(?:[\.\s]+)?(\d+)(\s+-[^\{\[\(\)\]\}\.]*)?"#;

/// Chapters: a prefix (whitespace, "c" at a word boundary, ", " or "+ "), a
/// number of at least two digits, an optional second number for a range, and an
/// optional " - Title". Group 2 is the first number, group 5 the second one.
pub const CHAPTER_PATTERN: &'static str = r#"(\s|\bc|[,\+]\s)(\d\d+(\.\d+)?)(-(\d\d+(\.\d+)?))?(\s+-[^\{\[\(\)\]\}\.]*)?"#;

/// A number, or a range of two, without leading zeroes: "0" when the first
/// number is all zeroes; the first number alone when the second one is all
/// zeroes or absent; otherwise both joined by '-'.
pub open spec fn number_spec(start: Seq<char>, end: Seq<char>) -> Seq<char> {
    let first = trim_start_char_spec(start, '0');
    let last = trim_start_char_spec(end, '0');
    if first.len() == 0 {
        seq!['0']
    } else if last.len() == 0 {
        first
    } else {
        first + seq!['-'] + last
    }
}

/// A number without leading zeroes, "0" when it is all zeroes.
pub open spec fn single_number_spec(n: Seq<char>) -> Seq<char> {
    let t = trim_start_char_spec(n, '0');
    if t.len() == 0 {
        seq!['0']
    } else {
        t
    }
}

/// A value that is "0" or does not begin with '0'.
pub open spec fn is_canonical_number(v: Seq<char>) -> bool {
    v.len() > 0 && (v[0] == '0' ==> v == seq!['0'])
}

/// `v` is `d` with the run of '0's that begins it removed, and something is
/// left, which does not begin with '0'.
pub open spec fn strips_leading_zeroes(d: Seq<char>, v: Seq<char>) -> bool {
    &&& v.len() > 0
    &&& v[0] != '0'
    &&& exists|k: int| 0 <= k <= d.len() && all_chars(d.take(k), '0') && v == #[trigger] d.skip(k)
}

/// Removing the leading zeroes of `d` leaves nothing exactly when `d` is all
/// zeroes; otherwise it leaves `d` from its first other character on, which
/// denotes the same number when `d` is made of digits.
pub proof fn lemma_strip_zeroes(d: Seq<char>)
    ensures
        all_chars(d, '0') <==> trim_start_char_spec(d, '0').len() == 0,
        !all_chars(d, '0') ==> strips_leading_zeroes(d, trim_start_char_spec(d, '0')),
        digits_value(trim_start_char_spec(d, '0')) == digits_value(d),
{
    let k = lemma_trim_start_char_skips(d, '0');
    lemma_trim_start_char_first(d, '0');
    lemma_digits_value_skip_zeroes(d, k);
    if k == d.len() {
        assert(d.take(k) =~= d);
    } else {
        assert(d.skip(k)[0] == d[k]);
    }
}

/// The volume found by `VOLUME_RANGE_PATTERN`; the text is the whole match
/// with surrounding whitespace trimmed.
pub open spec fn volume_range_spec(c: Option<Seq<Option<Seq<char>>>>) -> Option<
    (Seq<char>, Seq<char>),
> {
    match c {
        Some(g) => Some((number_spec(group(g, 2), group(g, 5)), trim_spec(group(g, 0)))),
        None => None,
    }
}

/// The volume found by `VOLUME_WORD_PATTERN`; the text is the whole match
/// with surrounding whitespace trimmed.
pub open spec fn volume_word_spec(c: Option<Seq<Option<Seq<char>>>>) -> Option<
    (Seq<char>, Seq<char>),
> {
    match c {
        Some(g) => Some((single_number_spec(group(g, 1)), trim_spec(group(g, 0)))),
        None => None,
    }
}

/// The volume: the first pattern wins; the second one is consulted only when
/// the first one does not match.
pub open spec fn volume_spec(
    range: Option<Seq<Option<Seq<char>>>>,
    word: Option<Seq<Option<Seq<char>>>>,
) -> Option<(Seq<char>, Seq<char>)> {
    if range is Some {
        volume_range_spec(range)
    } else {
        volume_word_spec(word)
    }
}

/// The chapter found by `CHAPTER_PATTERN`; the text is the whole match with
/// surrounding whitespace trimmed.
pub open spec fn chapter_spec(c: Option<Seq<Option<Seq<char>>>>) -> Option<(Seq<char>, Seq<char>)> {
    volume_range_spec(c)
}

/// The values that `number_spec` and `single_number_spec` produce carry no
/// leading zero.
pub proof fn lemma_numbers_canonical(start: Seq<char>, end: Seq<char>)
    ensures
        is_canonical_number(number_spec(start, end)),
        is_canonical_number(single_number_spec(start)),
{
    lemma_trim_start_char_first(start, '0');
    let first = trim_start_char_spec(start, '0');
    let last = trim_start_char_spec(end, '0');
    if first.len() > 0 && last.len() > 0 {
        assert((first + seq!['-'] + last)[0] == first[0]);
    }
}

fn number_text(start: &str, end: &str) -> (r: String)
    ensures
        r@ == number_spec(start@, end@),
{
    let first = trim_start_char(start, '0');
    let last = trim_start_char(end, '0');
    proof {
        reveal_strlit("0");
        reveal_strlit("-");
    }
    if first.is_empty() {
        String::from_str("0")
    } else {
        let mut value = String::from_str(first);
        if !last.is_empty() {
            value.append("-");
            value.append(last);
        }
        value
    }
}

/// Builds the volume from the groups of a match of `VOLUME_RANGE_PATTERN`
/// (also the chapter from a match of `CHAPTER_PATTERN`, whose groups sit at the
/// same places).
pub fn volume_from_range_captures<'a>(caps: Option<Vec<Option<&'a str>>>) -> (r: Option<
    Extract<'a, String>,
>)
    ensures
        extract_view(r) == volume_range_spec(captures_view(caps)),
        r matches Some(e) ==> is_canonical_number(e.value@),
{
    match caps {
        Some(c) => {
            let text = group_at(&c, 0);
            let start = group_at(&c, 2);
            let end = group_at(&c, 5);
            proof {
                lemma_numbers_canonical(start@, end@);
            }
            Some(Extract { value: number_text(start, end), text: trim(text) })
        },
        None => None,
    }
}

/// Builds the volume from the groups of a match of `VOLUME_WORD_PATTERN`.
pub fn volume_from_word_captures<'a>(caps: Option<Vec<Option<&'a str>>>) -> (r: Option<
    Extract<'a, String>,
>)
    ensures
        extract_view(r) == volume_word_spec(captures_view(caps)),
        r matches Some(e) ==> is_canonical_number(e.value@),
        captures_view(caps) matches Some(g) ==> r is Some && digits_value(r->0.value@)
            == digits_value(group(g, 1)),
{
    match caps {
        Some(c) => {
            let text = group_at(&c, 0);
            let number = group_at(&c, 1);
            proof {
                lemma_numbers_canonical(number@, number@);
                lemma_word_volume_keeps_the_number(group_views(c@));
                reveal_strlit("0");
            }
            let trimmed = trim_start_char(number, '0');
            let value = if trimmed.is_empty() {
                String::from_str("0")
            } else {
                String::from_str(trimmed)
            };
            Some(Extract { value, text: trim(text) })
        },
        None => None,
    }
}

/// Extracts the volume number.
///
/// First tries "v01"-style numbers (with ranges, decimals and "001-010 as"
/// prefixes), then "Vol. 1"/"Volume 02" spellings. Leading zeroes are trimmed;
/// an all-zero number gives "0".
pub fn extract_volume(s: &str) -> (r: Option<Extract<'_, String>>)
    ensures
        extract_view(r) == volume_spec(
            regex_captures_of(VOLUME_RANGE_PATTERN@, true, s@),
            regex_captures_of(VOLUME_WORD_PATTERN@, true, s@),
        ),
        r matches Some(e) ==> is_infix(e.text@, s@) && is_canonical_number(e.value@),
{
    let range = search(VOLUME_RANGE_PATTERN, true, s);
    if range.is_some() {
        proof {
            lemma_trimmed_match_within(group_views(range->0@), s@);
        }
        volume_from_range_captures(range)
    } else {
        let word = search(VOLUME_WORD_PATTERN, true, s);
        proof {
            if word is Some {
                lemma_trimmed_match_within(group_views(word->0@), s@);
            }
        }
        volume_from_word_captures(word)
    }
}

/// Builds the chapter from the groups of a match of `CHAPTER_PATTERN`.
pub fn chapter_from_captures<'a>(caps: Option<Vec<Option<&'a str>>>) -> (r: Option<
    Extract<'a, String>,
>)
    ensures
        extract_view(r) == chapter_spec(captures_view(caps)),
        r matches Some(e) ==> is_canonical_number(e.value@),
{
    volume_from_range_captures(caps)
}

/// Extracts the chapter number: at least two digits after whitespace, "c",
/// ", " or "+ ", with an optional range and title. Leading zeroes are trimmed;
/// an all-zero number gives "0".
pub fn extract_chapter(s: &str) -> (r: Option<Extract<'_, String>>)
    ensures
        extract_view(r) == chapter_spec(regex_captures_of(CHAPTER_PATTERN@, true, s@)),
        r matches Some(e) ==> is_infix(e.text@, s@) && is_canonical_number(e.value@),
{
    let caps = search(CHAPTER_PATTERN, true, s);
    proof {
        if caps is Some {
            lemma_trimmed_match_within(group_views(caps->0@), s@);
        }
    }
    chapter_from_captures(caps)
}


/// "Seven Seas", "Seven Seas Entertainment" or "Seven Seas Edition" in brackets.
pub const SEVEN_SEAS_PATTERN: &'static str = r#"[{(\[]\s*(Seven\sSeas\s*(?:Entertainment|Edition)?)\s*[\])}]"#;

/// "Seven Seas Siren" (the audiobook department) in brackets.
pub const SEVEN_SEAS_SIREN_PATTERN: &'static str = r#"[{(\[]\s*(Seven\sSeas\sSiren)\s*[\])}]"#;

/// "Kodansha", "Kodansha USA" or "Kodansha Comics" in brackets.
pub const KODANSHA_PATTERN: &'static str = r#"[{(\[]\s*(Kodansha\s*(USA|Comics)?)\s*[\])}]"#;

/// "Viz" or "Viz Media" in brackets.
pub const VIZ_PATTERN: &'static str = r#"[{(\[]\s*(Viz\s*(Media)?)\s*[\])}]"#;

/// "J-Novel Club" (or "J Novels Club" and the like) in brackets.
pub const J_NOVEL_CLUB_PATTERN: &'static str = r#"[{(\[]\s*(J[-\s]Novels?\sClub)\s*[\])}]"#;

/// "Yen Press" in brackets.
pub const YEN_PRESS_PATTERN: &'static str = r#"[{(\[]\s*(Yen\sPress)\s*[\])}]"#;

/// "Yen Audio" (the audiobook department) in brackets.
pub const YEN_AUDIO_PATTERN: &'static str = r#"[{(\[]\s*(Yen\sAudio)\s*[\])}]"#;

/// "Square Enix" in brackets.
pub const SQUARE_ENIX_PATTERN: &'static str = r#"[{(\[]\s*(Square\sEnix)\s*[\])}]"#;

/// The number of bracketed publisher patterns, tried in order.
pub const PUBLISHER_RULES: usize = 8;

/// The `i`-th bracketed publisher pattern.
pub open spec fn publisher_pattern(i: int) -> Seq<char> {
    if i == 0 {
        SEVEN_SEAS_PATTERN@
    } else if i == 1 {
        SEVEN_SEAS_SIREN_PATTERN@
    } else if i == 2 {
        KODANSHA_PATTERN@
    } else if i == 3 {
        VIZ_PATTERN@
    } else if i == 4 {
        J_NOVEL_CLUB_PATTERN@
    } else if i == 5 {
        YEN_PRESS_PATTERN@
    } else if i == 6 {
        YEN_AUDIO_PATTERN@
    } else {
        SQUARE_ENIX_PATTERN@
    }
}

/// The publisher that the `i`-th bracketed pattern stands for.
pub open spec fn publisher_name(i: int) -> Seq<char> {
    if i == 0 {
        "Seven Seas Entertainment"@
    } else if i == 1 {
        "Seven Seas Siren"@
    } else if i == 2 {
        "Kodansha"@
    } else if i == 3 {
        "Viz"@
    } else if i == 4 {
        "J-Novel Club"@
    } else if i == 5 {
        "Yen Press"@
    } else if i == 6 {
        "Yen Audio"@
    } else {
        "Square Enix"@
    }
}

/// The `i`-th bracketed publisher pattern and the publisher it stands for.
pub fn publisher_rule(i: usize) -> (r: (&'static str, &'static str))
    requires
        i < PUBLISHER_RULES,
    ensures
        r.0@ == publisher_pattern(i as int),
        r.1@ == publisher_name(i as int),
{
    if i == 0 {
        (SEVEN_SEAS_PATTERN, "Seven Seas Entertainment")
    } else if i == 1 {
        (SEVEN_SEAS_SIREN_PATTERN, "Seven Seas Siren")
    } else if i == 2 {
        (KODANSHA_PATTERN, "Kodansha")
    } else if i == 3 {
        (VIZ_PATTERN, "Viz")
    } else if i == 4 {
        (J_NOVEL_CLUB_PATTERN, "J-Novel Club")
    } else if i == 5 {
        (YEN_PRESS_PATTERN, "Yen Press")
    } else if i == 6 {
        (YEN_AUDIO_PATTERN, "Yen Audio")
    } else {
        (SQUARE_ENIX_PATTERN, "Square Enix")
    }
}

/// The whole match of the `i`-th bracketed publisher pattern on `s`, if any.
pub open spec fn publisher_find(i: int, s: Seq<char>) -> Option<Seq<char>> {
    whole_match(publisher_pattern(i), s)
}

/// The whole matches of all bracketed publisher patterns on `s`, in order.
pub open spec fn publisher_finds(s: Seq<char>) -> Seq<Option<Seq<char>>> {
    Seq::new(PUBLISHER_RULES as nat, |i: int| publisher_find(i, s))
}

/// The texts of a list of publisher names.
pub open spec fn known_view(known: Seq<&str>) -> Seq<Seq<char>> {
    known.map_values(|k: &str| k@)
}

/// The first known publisher name, from position `j` on, that occurs in `s`;
/// it is both the value and the text.
pub open spec fn known_publisher_spec(s: Seq<char>, known: Seq<Seq<char>>, j: nat) -> Option<
    (Seq<char>, Seq<char>),
>
    decreases known.len() - j,
{
    if j >= known.len() {
        None
    } else if contains_spec(s, known[j as int]) {
        Some((known[j as int], known[j as int]))
    } else {
        known_publisher_spec(s, known, j + 1)
    }
}

/// The publisher: the first bracketed pattern (from position `i` on) that
/// matched gives its publisher and its match; failing all, the first known
/// publisher name that occurs in `s`.
pub open spec fn select_publisher_spec(
    finds: Seq<Option<Seq<char>>>,
    s: Seq<char>,
    known: Seq<Seq<char>>,
    i: nat,
) -> Option<(Seq<char>, Seq<char>)>
    decreases finds.len() - i,
{
    if i >= finds.len() || i >= PUBLISHER_RULES {
        known_publisher_spec(s, known, 0)
    } else {
        match finds[i as int] {
            Some(t) => Some((publisher_name(i as int), t)),
            None => select_publisher_spec(finds, s, known, i + 1),
        }
    }
}

/// The value is one of the bracketed publishers or one of the known names.
pub open spec fn is_publisher_value(v: Seq<char>, known: Seq<Seq<char>>) -> bool {
    (exists|i: int| 0 <= i < PUBLISHER_RULES && v == #[trigger] publisher_name(i)) || (exists|
        j: int,
    |
        0 <= j < known.len() && v == #[trigger] known[j])
}

/// Picks the publisher from the whole matches `finds` of the bracketed patterns
/// (in the order of `publisher_rule`); when none matched, falls back on the
/// first name of `known` that occurs in `s`, reporting its occurrence in `s`.
pub fn select_publisher<'a>(finds: &Vec<Option<&'a str>>, s: &'a str, known: &[&str]) -> (r:
    Option<Extract<'a, &'a str>>)
    ensures
        extract_view(r) == select_publisher_spec(group_views(finds@), s@, known_view(known@), 0),
        r matches Some(e) ==> is_publisher_value(e.value@, known_view(known@)),
        (forall|k: int|
            0 <= k < finds@.len() && #[trigger] finds@[k] is Some ==> is_infix(finds@[k]->0@, s@))
            ==> (r matches Some(e) ==> is_infix(e.text@, s@)),
{
    let ghost fv = group_views(finds@);
    let ghost kv = known_view(known@);
    let mut i: usize = 0;
    while i < finds.len() && i < PUBLISHER_RULES
        invariant
            i <= finds@.len(),
            fv == group_views(finds@),
            kv == known_view(known@),
            select_publisher_spec(fv, s@, kv, 0) == select_publisher_spec(fv, s@, kv, i as nat),
        decreases finds@.len() - i,
    {
        if let Some(t) = finds[i] {
            let (_, name) = publisher_rule(i);
            assert(fv[i as int] == Some(t@));
            return Some(Extract { value: name, text: t });
        }
        assert(fv[i as int] is None);
        i += 1;
    }
    let mut j: usize = 0;
    while j < known.len()
        invariant
            j <= known@.len(),
            kv == known_view(known@),
            fv == group_views(finds@),
            select_publisher_spec(fv, s@, kv, 0) == known_publisher_spec(s@, kv, 0),
            known_publisher_spec(s@, kv, 0) == known_publisher_spec(s@, kv, j as nat),
        decreases known@.len() - j,
    {
        let name = known[j];
        assert(kv[j as int] == name@);
        match find_str(s, name) {
            Some(p) => {
                let n = s.unicode_len();
                let m = name.unicode_len();
                assert(occurs_at(s@, name@, p as int));
                let found = s.substring_char(p, p + m);
                proof {
                    assert(contains_spec(s@, name@));
                    assert(found@ == kv[j as int]);
                    assert(is_infix(found@, s@));
                }
                return Some(Extract { value: found, text: found });
            },
            None => {},
        }
        j += 1;
    }
    None
}

/// Extracts a known publisher, first by the bracketed patterns, in the order of
/// `publisher_rule`, then as a plain substring: the first of the names in
/// `known` that occurs in `s`.
pub fn extract_publisher<'a>(s: &'a str, known: &[&str]) -> (r: Option<Extract<'a, &'a str>>)
    ensures
        extract_view(r) == select_publisher_spec(publisher_finds(s@), s@, known_view(known@), 0),
        r matches Some(e) ==> is_infix(e.text@, s@) && is_publisher_value(e.value@, known_view(known@)),
{
    let mut finds: Vec<Option<&'a str>> = Vec::new();
    let mut i: usize = 0;
    while i < PUBLISHER_RULES
        invariant
            i <= PUBLISHER_RULES,
            finds@.len() == i,
            forall|k: int| 0 <= k < i ==> #[trigger] group_views(finds@)[k] == publisher_find(k, s@),
            forall|k: int|
                0 <= k < finds@.len() && #[trigger] finds@[k] is Some ==> is_infix(finds@[k]->0@, s@),
        decreases PUBLISHER_RULES - i,
    {
        let (pattern, _) = publisher_rule(i);
        let caps = search(pattern, true, s);
        let found = match caps {
            Some(c) => {
                proof {
                    lemma_group_within(group_views(c@), s@, 0);
                }
                Some(group_at(&c, 0))
            },
            None => None,
        };
        assert(match found {
            Some(t) => publisher_find(i as int, s@) == Some(t@),
            None => publisher_find(i as int, s@) is None,
        });
        let ghost old_finds = finds@;
        finds.push(found);
        assert(forall|k: int| 0 <= k < i ==> finds@[k] == old_finds[k]);
        assert forall|k: int| 0 <= k < i + 1 implies #[trigger] group_views(finds@)[k] == publisher_find(k, s@) by {
            if k < i {
                assert(group_views(old_finds)[k] == publisher_find(k, s@));
                assert(group_views(finds@)[k] == group_views(old_finds)[k]);
            }
        }
        i += 1;
    }
    assert(group_views(finds@) =~= publisher_finds(s@));
    select_publisher(&finds, s, known)
}


/// A "PRE" marker in brackets, or "PREPUB".
pub const PRE_PATTERN: &'static str = r#"[{(\[]\s*PRE\s*[\])}]|PREPUB"#;

/// A bracketed term that begins with "digital".
pub const DIGITAL_PATTERN: &'static str = r#"[{(\[]\s*(digital.*?)\s*[\])}]"#;

/// A bracketed term that begins with "scan".
pub const SCAN_PATTERN: &'static str = r#"[{(\[]\s*(scan.*?)\s*[\])}]"#;

/// "Digital-Compilation" in brackets.
pub const DIGITAL_COMPILATION_PATTERN: &'static str = r#"[{(\[]\s*(Digital-Compilation)\s*[\])}]"#;

/// "ED" in brackets.
pub const EDITED_PATTERN: &'static str = r#"[{(\[]\s*(ed)\s*[\])}]"#;

/// A marker: present, with the whole match as text, when the pattern matched.
pub open spec fn marker_spec(c: Option<Seq<Option<Seq<char>>>>) -> Option<(bool, Seq<char>)> {
    match c {
        Some(g) => Some((true, group(g, 0))),
        None => None,
    }
}

/// Builds a marker from the groups of a match of its pattern.
pub fn marker_from_captures<'a>(caps: Option<Vec<Option<&'a str>>>) -> (r: Option<Extract<'a, bool>>)
    ensures
        extract_view(r) == marker_spec(captures_view(caps)),
{
    match caps {
        Some(c) => Some(Extract { value: true, text: group_at(&c, 0) }),
        None => None,
    }
}

fn extract_marker<'a>(pattern: &str, s: &'a str) -> (r: Option<Extract<'a, bool>>)
    ensures
        extract_view(r) == marker_spec(regex_captures_of(pattern@, true, s@)),
        r matches Some(e) ==> is_infix(e.text@, s@),
{
    let caps = search(pattern, true, s);
    proof {
        if caps is Some {
            lemma_group_within(group_views(caps->0@), s@, 0);
        }
    }
    marker_from_captures(caps)
}

/// Extracts a "PRE" marker.
pub fn extract_pre(s: &str) -> (r: Option<Extract<'_, bool>>)
    ensures
        extract_view(r) == marker_spec(regex_captures_of(PRE_PATTERN@, true, s@)),
        r matches Some(e) ==> is_infix(e.text@, s@),
{
    extract_marker(PRE_PATTERN, s)
}

/// Extracts a "Digital" marker.
pub fn extract_digital(s: &str) -> (r: Option<Extract<'_, bool>>)
    ensures
        extract_view(r) == marker_spec(regex_captures_of(DIGITAL_PATTERN@, true, s@)),
        r matches Some(e) ==> is_infix(e.text@, s@),
{
    extract_marker(DIGITAL_PATTERN, s)
}

/// Extracts a "Scan" marker.
pub fn extract_scan(s: &str) -> (r: Option<Extract<'_, bool>>)
    ensures
        extract_view(r) == marker_spec(regex_captures_of(SCAN_PATTERN@, true, s@)),
        r matches Some(e) ==> is_infix(e.text@, s@),
{
    extract_marker(SCAN_PATTERN, s)
}

/// Extracts a "Digital-Compilation" marker.
pub fn extract_digital_compilation(s: &str) -> (r: Option<Extract<'_, bool>>)
    ensures
        extract_view(r) == marker_spec(regex_captures_of(DIGITAL_COMPILATION_PATTERN@, true, s@)),
        r matches Some(e) ==> is_infix(e.text@, s@),
{
    extract_marker(DIGITAL_COMPILATION_PATTERN, s)
}

/// Extracts an "ED" marker.
pub fn extract_edited(s: &str) -> (r: Option<Extract<'_, bool>>)
    ensures
        extract_view(r) == marker_spec(regex_captures_of(EDITED_PATTERN@, true, s@)),
        r matches Some(e) ==> is_infix(e.text@, s@),
{
    extract_marker(EDITED_PATTERN, s)
}

/// A four-digit year in brackets, optionally followed by "-" and a second one.
/// Group 1 is the first year.
pub const YEAR_PATTERN: &'static str = r#"[{(\[]\s*(\d{4})(-\d{4})?\s*[\])}]"#;

/// The start year: group 1 parsed as a `u16`; nothing when it does not parse.
pub open spec fn year_spec(c: Option<Seq<Option<Seq<char>>>>) -> Option<(nat, Seq<char>)> {
    match c {
        Some(g) => match parse_unsigned_spec(group(g, 1), 65535) {
            Some(y) => Some((y, group(g, 0))),
            None => None,
        },
        None => None,
    }
}

/// A year extraction as numbers and text.
pub open spec fn number_extract_view<'a>(r: Option<Extract<'a, u16>>) -> Option<(nat, Seq<char>)> {
    match r {
        Some(e) => Some((e.value as nat, e.text@)),
        None => None,
    }
}

/// Builds the start year from the groups of a match of `YEAR_PATTERN`.
pub fn year_from_captures<'a>(caps: Option<Vec<Option<&'a str>>>) -> (r: Option<Extract<'a, u16>>)
    ensures
        number_extract_view(r) == year_spec(captures_view(caps)),
{
    match caps {
        Some(c) => match parse_u16(group_at(&c, 1)) {
            Some(year) => Some(Extract { value: year, text: group_at(&c, 0) }),
            None => None,
        },
        None => None,
    }
}

/// Extracts the year or year range, returning only the start year in the parsed field.
pub fn extract_year(s: &str) -> (r: Option<Extract<'_, u16>>)
    ensures
        number_extract_view(r) == year_spec(regex_captures_of(YEAR_PATTERN@, true, s@)),
        r matches Some(e) ==> is_infix(e.text@, s@),
{
    let caps = search(YEAR_PATTERN, true, s);
    proof {
        if caps is Some {
            lemma_group_within(group_views(caps->0@), s@, 0);
        }
    }
    year_from_captures(caps)
}

/// A revision marker: "f" or "r", optionally followed by one digit, in
/// brackets. Group 1 is the digit.
pub const REVISION_PATTERN: &'static str = r#"[{(\[]\s*(?:f|r)(\d)?\s*[\])}]"#;

/// The revision that a marker stands for. The original release, without any
/// marker, is revision 1; a marker without a digit is the first revision after
/// it, revision 2; a digit N stands for the revision N + 2.
pub open spec fn revision_value(digit: Seq<char>) -> nat {
    match parse_unsigned_spec(digit, 255) {
        Some(n) => n + 2,
        None => 2,
    }
}

/// The revision with the whole match as text.
pub open spec fn revision_spec(c: Option<Seq<Option<Seq<char>>>>) -> Option<(nat, Seq<char>)> {
    match c {
        Some(g) => Some((revision_value(group(g, 1)), group(g, 0))),
        None => None,
    }
}

/// The digit of a revision marker leaves room for adding 2 within a `u8`.
pub open spec fn revision_fits(digit: Seq<char>) -> bool {
    revision_value(digit) <= 255
}

/// A revision extraction as numbers and text.
pub open spec fn revision_extract_view<'a>(r: Option<Extract<'a, u8>>) -> Option<(nat, Seq<char>)> {
    match r {
        Some(e) => Some((e.value as nat, e.text@)),
        None => None,
    }
}

/// Builds the revision from the groups of a match of `REVISION_PATTERN`.
pub fn revision_from_captures<'a>(caps: Option<Vec<Option<&'a str>>>) -> (r: Option<Extract<'a, u8>>)
    requires
        captures_view(caps) matches Some(g) ==> revision_fits(group(g, 1)),
    ensures
        revision_extract_view(r) == revision_spec(captures_view(caps)),
        r matches Some(e) ==> e.value >= 2,
{
    match caps {
        Some(c) => {
            let value = match parse_u8(group_at(&c, 1)) {
                Some(n) => n + 2,
                None => 2,
            };
            Some(Extract { value, text: group_at(&c, 0) })
        },
        None => None,
    }
}

/// Extracts the revision marker (e.g., "(F)", "[f1]", "{r2}"): "(f)" or "(r)"
/// gives 2, a digit N gives N + 2. A string without such a marker gives `None`,
/// which callers read as revision 1. A digit whose revision would not fit in a
/// `u8` (which the pattern's single digit never gives) also gives `None`.
pub fn extract_revision(s: &str) -> (r: Option<Extract<'_, u8>>)
    ensures
        match regex_captures_of(REVISION_PATTERN@, true, s@) {
            Some(g) => if revision_fits(group(g, 1)) {
                revision_extract_view(r) == revision_spec(Some(g))
            } else {
                r is None
            },
            None => r is None,
        },
        r matches Some(e) ==> is_infix(e.text@, s@) && e.value >= 2,
        regex_captures_of(REVISION_PATTERN@, true, s@) matches Some(g) ==> (group(g, 1).len() <= 1
            ==> r is Some),
{
    let caps = search(REVISION_PATTERN, true, s);
    match caps {
        Some(c) => {
            proof {
                lemma_group_within(group_views(c@), s@, 0);
                if group(group_views(c@), 1).len() <= 1 {
                    lemma_revision_single_digit(group_views(c@));
                }
            }
            let fits = match parse_u8(group_at(&c, 1)) {
                Some(n) => n <= 253,
                None => true,
            };
            if fits {
                revision_from_captures(Some(c))
            } else {
                None
            }
        },
        None => None,
    }
}


/// Any text containing "Edition" within a pair of brackets. Group 1 is the
/// bracketed text.
pub const EDITION_BRACKETED_PATTERN: &'static str = r#"[{(\[]([\w\s'&]*?Edition.*?)[\])}]"#;

/// Word characters, whitespace, single quotes and ampersands ending in
/// "Edition", not necessarily in brackets. Group 1 is the whole of it.
pub const EDITION_BARE_PATTERN: &'static str = r#"([\w\s'&]*?Edition)"#;

/// The known edition that does not use the word "Edition": "Premium" in
/// brackets. Group 1 is "Premium".
pub const EDITION_PREMIUM_PATTERN: &'static str = r#"[{(\[](Premium)[\])}]"#;

/// An edition from one match: group 1 trimmed, with the whole match as text,
/// trimmed too if asked.
pub open spec fn edition_match_spec(c: Option<Seq<Option<Seq<char>>>>, trim_text: bool) -> Option<
    (Seq<char>, Seq<char>),
> {
    match c {
        Some(g) => Some(
            (
                trim_spec(group(g, 1)),
                if trim_text {
                    trim_spec(group(g, 0))
                } else {
                    group(g, 0)
                },
            ),
        ),
        None => None,
    }
}

/// The edition: the bracketed pattern first, then the bare one (whose text is
/// trimmed), then "Premium"; each consulted only when the ones before it did
/// not match.
pub open spec fn edition_spec(
    bracketed: Option<Seq<Option<Seq<char>>>>,
    bare: Option<Seq<Option<Seq<char>>>>,
    premium: Option<Seq<Option<Seq<char>>>>,
) -> Option<(Seq<char>, Seq<char>)> {
    if bracketed is Some {
        edition_match_spec(bracketed, false)
    } else if bare is Some {
        edition_match_spec(bare, true)
    } else {
        edition_match_spec(premium, false)
    }
}

/// Builds an edition from the groups of a match of one of the edition
/// patterns; `trim_text` asks for the whole match to be trimmed as well.
pub fn edition_from_captures<'a>(caps: Option<Vec<Option<&'a str>>>, trim_text: bool) -> (r:
    Option<Extract<'a, &'a str>>)
    ensures
        extract_view(r) == edition_match_spec(captures_view(caps), trim_text),
        r matches Some(e) ==> is_trimmed(e.value@),
{
    match caps {
        Some(c) => {
            let whole = group_at(&c, 0);
            let text = if trim_text {
                trim(whole)
            } else {
                whole
            };
            Some(Extract { value: trim(group_at(&c, 1)), text })
        },
        None => None,
    }
}

/// Extracts the edition: "(Omnibus Edition)" gives "Omnibus Edition", "Black &
/// White 30th Anniversary Edition" outside brackets gives itself, and
/// "[Premium]" gives "Premium".
pub fn extract_edition(s: &str) -> (r: Option<Extract<'_, &str>>)
    ensures
        extract_view(r) == edition_spec(
            regex_captures_of(EDITION_BRACKETED_PATTERN@, true, s@),
            regex_captures_of(EDITION_BARE_PATTERN@, true, s@),
            regex_captures_of(EDITION_PREMIUM_PATTERN@, true, s@),
        ),
        r matches Some(e) ==> is_infix(e.text@, s@) && is_trimmed(e.value@),
{
    let bracketed = search(EDITION_BRACKETED_PATTERN, true, s);
    if bracketed.is_some() {
        proof {
            lemma_group_within(group_views(bracketed->0@), s@, 0);
        }
        return edition_from_captures(bracketed, false);
    }
    let bare = search(EDITION_BARE_PATTERN, true, s);
    if bare.is_some() {
        proof {
            lemma_trimmed_match_within(group_views(bare->0@), s@);
        }
        return edition_from_captures(bare, true);
    }
    let premium = search(EDITION_PREMIUM_PATTERN, true, s);
    proof {
        if premium is Some {
            lemma_group_within(group_views(premium->0@), s@, 0);
        }
    }
    edition_from_captures(premium, false)
}

/// A bracketed term at the very end of the (trimmed) name. Group 1 is its
/// content, which holds no bracket and no slash.
pub const GROUP_PATTERN: &'static str = r#"[\{\[\(]([^\{\[\(\)\]\}\/\\]*)[\)\]\}]$"#;

/// The release group: group 1 trimmed, with the whole match as text; nothing
/// when the trimmed content is empty.
pub open spec fn release_group_spec(c: Option<Seq<Option<Seq<char>>>>) -> Option<
    (Seq<char>, Seq<char>),
> {
    match c {
        Some(g) => if trim_spec(group(g, 1)).len() == 0 {
            None
        } else {
            Some((trim_spec(group(g, 1)), group(g, 0)))
        },
        None => None,
    }
}

/// Builds the release group from the groups of a match of `GROUP_PATTERN`.
pub fn release_group_from_captures<'a>(caps: Option<Vec<Option<&'a str>>>) -> (r: Option<
    Extract<'a, &'a str>,
>)
    ensures
        extract_view(r) == release_group_spec(captures_view(caps)),
        r matches Some(e) ==> e.value@.len() > 0 && is_trimmed(e.value@),
{
    match caps {
        Some(c) => {
            let name = trim(group_at(&c, 1));
            if name.is_empty() {
                None
            } else {
                Some(Extract { value: name, text: group_at(&c, 0) })
            }
        },
        None => None,
    }
}

/// Extracts the group name: the non-empty content of the bracketed term that
/// ends the name, after surrounding whitespace is trimmed.
pub fn extract_group(s: &str) -> (r: Option<Extract<'_, &str>>)
    ensures
        extract_view(r) == release_group_spec(regex_captures_of(GROUP_PATTERN@, true, trim_spec(s@))),
        r matches Some(e) ==> is_infix(e.text@, s@) && e.value@.len() > 0 && is_trimmed(e.value@),
{
    let trimmed = trim(s);
    let caps = search(GROUP_PATTERN, true, trimmed);
    proof {
        if caps is Some {
            let g0 = group(group_views(caps->0@), 0);
            lemma_group_within(group_views(caps->0@), trimmed@, 0);
            lemma_infix_transitive(g0, trimmed@, s@);
        }
    }
    release_group_from_captures(caps)
}


/// The release group does not change when whitespace around the name is
/// trimmed first: `extract_group(trim(s))` reports what `extract_group(s)` does.
pub proof fn lemma_group_ignores_surrounding_whitespace(s: Seq<char>)
    ensures
        release_group_spec(regex_captures_of(GROUP_PATTERN@, true, trim_spec(trim_spec(s))))
            == release_group_spec(regex_captures_of(GROUP_PATTERN@, true, trim_spec(s))),
{
    lemma_trim_idempotent(s);
}


/// A "Vol"/"Volume" match gives its number with only the leading zeroes
/// removed ("0" when the number is all zeroes), so the value denotes the same
/// number as the digits that matched; the text is the trimmed whole match.
pub proof fn lemma_word_volume_keeps_the_number(c: Seq<Option<Seq<char>>>)
    ensures
        volume_word_spec(Some(c)) is Some,
        ({
            let found = volume_word_spec(Some(c))->0;
            let v = found.0;
            let d = group(c, 1);
            &&& found.1 == trim_spec(group(c, 0))
            &&& all_chars(d, '0') ==> v == seq!['0']
            &&& !all_chars(d, '0') ==> strips_leading_zeroes(d, v)
            &&& digits_value(v) == digits_value(d)
        }),
{
    let d = group(c, 1);
    lemma_strip_zeroes(d);
    lemma_digits_value_leading_zero(Seq::<char>::empty());
    assert(seq!['0'] + Seq::<char>::empty() =~= seq!['0']);
}

/// A "v01-02"-style match (or a chapter match) gives the first number with
/// only its leading zeroes removed ("0" when it is all zeroes), followed, when
/// the second number is not all zeroes, by '-' and the second number with only
/// its leading zeroes removed.
pub proof fn lemma_range_keeps_the_numbers(c: Seq<Option<Seq<char>>>)
    ensures
        volume_range_spec(Some(c)) is Some,
        chapter_spec(Some(c)) == volume_range_spec(Some(c)),
        ({
            let found = volume_range_spec(Some(c))->0;
            let v = found.0;
            let a = group(c, 2);
            let b = group(c, 5);
            &&& found.1 == trim_spec(group(c, 0))
            &&& all_chars(a, '0') ==> v == seq!['0']
            &&& !all_chars(a, '0') && all_chars(b, '0') ==> strips_leading_zeroes(a, v)
            &&& !all_chars(a, '0') && !all_chars(b, '0') ==> exists|x: Seq<char>, y: Seq<char>|
                strips_leading_zeroes(a, x) && strips_leading_zeroes(b, y) && v == #[trigger] (x
                    + seq!['-'] + y)
        }),
{
    let a = group(c, 2);
    let b = group(c, 5);
    lemma_strip_zeroes(a);
    lemma_strip_zeroes(b);
    let x = trim_start_char_spec(a, '0');
    let y = trim_start_char_spec(b, '0');
    if !all_chars(a, '0') && !all_chars(b, '0') {
        assert(strips_leading_zeroes(a, x) && strips_leading_zeroes(b, y));
        let found = volume_range_spec(Some(c))->0;
        assert(found.0 == x + seq!['-'] + y);
    }
}

/// Whenever the revision pattern matches with at most one character in the
/// digit group (as its `(\d)?` gives), there is a result: 2 without a digit
/// (or with a character that is no ASCII digit), N + 2 with the ASCII digit N.
pub proof fn lemma_revision_single_digit(g: Seq<Option<Seq<char>>>)
    requires
        group(g, 1).len() <= 1,
    ensures
        revision_fits(group(g, 1)),
        revision_spec(Some(g)) == Some(
            (
                if group(g, 1).len() == 1 && is_ascii_digit(group(g, 1)[0]) {
                    ((group(g, 1)[0] as int) - ('0' as int) + 2) as nat
                } else {
                    2nat
                },
                group(g, 0),
            ),
        ),
{
    let d = group(g, 1);
    if d.len() == 1 {
        if d[0] == '+' {
            assert(d.drop_first() =~= Seq::<char>::empty());
            assert(parse_unsigned_spec(d, 255) is None);
        } else {
            assert(crate::text::unsigned_digits(d) == d);
            if is_ascii_digit(d[0]) {
                assert(d.drop_last() =~= Seq::<char>::empty());
                assert(d.last() == d[0]);
                assert(digits_value(Seq::<char>::empty()) == 0);
                assert(digits_value(d) == (d[0] as int) - ('0' as int));
                assert(all_ascii_digits(d));
                assert(parse_unsigned_spec(d, 255) == Some(((d[0] as int) - ('0' as int)) as nat));
            } else {
                assert(!all_ascii_digits(d));
                assert(parse_unsigned_spec(d, 255) is None);
            }
        }
    } else {
        assert(parse_unsigned_spec(d, 255) is None);
    }
}

/// The whole match of `pattern` (case-insensitive) on `s`, if any.
pub open spec fn whole_match(pattern: Seq<char>, s: Seq<char>) -> Option<Seq<char>> {
    match regex_captures_of(pattern, true, s) {
        Some(g) => Some(group(g, 0)),
        None => None,
    }
}

/// The publisher rules, in order: the first bracketed pattern that matches
/// names its own publisher, with its whole match as text (Seven Seas, Seven
/// Seas Siren, Kodansha, Viz, J-Novel Club, Yen Press, Yen Audio, Square Enix);
/// when none matches, the first known name that occurs in `s` decides.
pub proof fn lemma_publisher_rules(s: Seq<char>, known: Seq<Seq<char>>)
    ensures
        ({
            let r = select_publisher_spec(publisher_finds(s), s, known, 0);
            let m0 = whole_match(SEVEN_SEAS_PATTERN@, s);
            let m1 = whole_match(SEVEN_SEAS_SIREN_PATTERN@, s);
            let m2 = whole_match(KODANSHA_PATTERN@, s);
            let m3 = whole_match(VIZ_PATTERN@, s);
            let m4 = whole_match(J_NOVEL_CLUB_PATTERN@, s);
            let m5 = whole_match(YEN_PRESS_PATTERN@, s);
            let m6 = whole_match(YEN_AUDIO_PATTERN@, s);
            let m7 = whole_match(SQUARE_ENIX_PATTERN@, s);
            &&& m0 is Some ==> r == Some(("Seven Seas Entertainment"@, m0->0))
            &&& m0 is None && m1 is Some ==> r == Some(("Seven Seas Siren"@, m1->0))
            &&& m0 is None && m1 is None && m2 is Some ==> r == Some(("Kodansha"@, m2->0))
            &&& m0 is None && m1 is None && m2 is None && m3 is Some ==> r == Some(("Viz"@, m3->0))
            &&& m0 is None && m1 is None && m2 is None && m3 is None && m4 is Some ==> r == Some(
                ("J-Novel Club"@, m4->0),
            )
            &&& m0 is None && m1 is None && m2 is None && m3 is None && m4 is None && m5 is Some
                ==> r == Some(("Yen Press"@, m5->0))
            &&& m0 is None && m1 is None && m2 is None && m3 is None && m4 is None && m5 is None
                && m6 is Some ==> r == Some(("Yen Audio"@, m6->0))
            &&& m0 is None && m1 is None && m2 is None && m3 is None && m4 is None && m5 is None
                && m6 is None && m7 is Some ==> r == Some(("Square Enix"@, m7->0))
            &&& m0 is None && m1 is None && m2 is None && m3 is None && m4 is None && m5 is None
                && m6 is None && m7 is None ==> r == known_publisher_spec(s, known, 0)
        }),
{
    let f = publisher_finds(s);
    assert(f[0] == whole_match(SEVEN_SEAS_PATTERN@, s));
    assert(f[1] == whole_match(SEVEN_SEAS_SIREN_PATTERN@, s));
    assert(f[2] == whole_match(KODANSHA_PATTERN@, s));
    assert(f[3] == whole_match(VIZ_PATTERN@, s));
    assert(f[4] == whole_match(J_NOVEL_CLUB_PATTERN@, s));
    assert(f[5] == whole_match(YEN_PRESS_PATTERN@, s));
    assert(f[6] == whole_match(YEN_AUDIO_PATTERN@, s));
    assert(f[7] == whole_match(SQUARE_ENIX_PATTERN@, s));
    reveal_with_fuel(select_publisher_spec, 9);
}

/// The edition patterns, in order: a bracketed "Edition" term first (value: its
/// content trimmed, text: the whole match), then a bare "... Edition" (value
/// and text trimmed), then a bracketed "Premium" (value "Premium" trimmed, text
/// the whole match); there is no edition only when none of the three matches.
pub proof fn lemma_edition_rules(s: Seq<char>)
    ensures
        ({
            let p1 = regex_captures_of(EDITION_BRACKETED_PATTERN@, true, s);
            let p2 = regex_captures_of(EDITION_BARE_PATTERN@, true, s);
            let p3 = regex_captures_of(EDITION_PREMIUM_PATTERN@, true, s);
            let r = edition_spec(p1, p2, p3);
            &&& r is None <==> (p1 is None && p2 is None && p3 is None)
            &&& p1 is Some ==> r == Some((trim_spec(group(p1->0, 1)), group(p1->0, 0)))
            &&& p1 is None && p2 is Some ==> r == Some(
                (trim_spec(group(p2->0, 1)), trim_spec(group(p2->0, 0))),
            )
            &&& p1 is None && p2 is None && p3 is Some ==> r == Some(
                (trim_spec(group(p3->0, 1)), group(p3->0, 0)),
            )
        }),
{
}


/// A year match gives the number that its four-digit group denotes, with the
/// whole match as text; a group holding anything but ASCII digits gives no
/// year.
pub proof fn lemma_year_rules(g: Seq<Option<Seq<char>>>)
    ensures
        ({
            let d = group(g, 1);
            &&& d.len() > 0 && all_ascii_digits(d) && digits_value(d) <= 65535 ==> year_spec(Some(g))
                == Some((digits_value(d), group(g, 0)))
            &&& d.len() > 0 && d[0] != '+' && !all_ascii_digits(d) ==> year_spec(Some(g)) is None
        }),
{
    let d = group(g, 1);
    if d.len() > 0 && all_ascii_digits(d) {
        assert(d[0] != '+');
    }
}

/// A marker is present exactly when its pattern matches; its value is then
/// `true` and its text the whole match.
pub proof fn lemma_marker_rules(c: Option<Seq<Option<Seq<char>>>>)
    ensures
        marker_spec(c) is Some <==> c is Some,
        c is Some ==> marker_spec(c) == Some((true, group(c->0, 0))),
{
}

} // verus!
