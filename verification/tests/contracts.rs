use release_parsers::extract::{
    chapter_from_captures, edition_from_captures, extension_from_captures, extract_extension,
    extract_group, extract_publisher, extract_revision, extract_volume, extract_year,
    marker_from_captures, publisher_rule, release_group_from_captures, revision_from_captures,
    select_publisher, volume_from_range_captures, volume_from_word_captures, year_from_captures,
    Extract,
};
use release_parsers::text::{find_str, is_white_space_char, parse_u16, parse_u8, trim, trim_start_char};
use release_parsers::title::cleanup;

fn ext<T>(value: T, text: &str) -> Option<Extract<'_, T>> {
    Some(Extract { value, text })
}

#[test]
fn trim_removes_unicode_whitespace_only_at_the_ends() {
    assert_eq!(trim("\t\u{3000} a  b \u{a0}\n"), "a  b");
    assert_eq!(trim("   "), "");
    assert_eq!(trim(""), "");
    assert_eq!(trim("x"), "x");
    for c in ['\u{85}', '\u{1680}', '\u{2000}', '\u{200a}', '\u{2028}', '\u{202f}', '\u{205f}'] {
        assert!(is_white_space_char(c));
        assert_eq!(is_white_space_char(c), c.is_whitespace());
    }
    for c in ['a', '_', '\u{200b}', '\u{180e}', '0'] {
        assert!(!is_white_space_char(c));
        assert_eq!(is_white_space_char(c), c.is_whitespace());
    }
}

#[test]
fn trim_start_char_strips_only_the_prefix() {
    assert_eq!(trim_start_char("000120", '0'), "120");
    assert_eq!(trim_start_char("000", '0'), "");
    assert_eq!(trim_start_char("0.5", '0'), ".5");
    assert_eq!(trim_start_char("7", '0'), "7");
}

#[test]
fn find_str_gives_the_first_occurrence() {
    assert_eq!(find_str("abcabc", "bc"), Some(1));
    assert_eq!(find_str("abc", ""), Some(0));
    assert_eq!(find_str("abc", "abcd"), None);
    assert_eq!(find_str("Fiancé [Vertical]", "Vertical"), Some(8));
}

#[test]
fn parsing_follows_str_parse() {
    for s in ["0", "7", "+9", "255", "256", "", "+", "-1", "1a", "٣", "0042", "99999"] {
        assert_eq!(parse_u8(s), s.parse::<u8>().ok(), "input: {}", s);
        assert_eq!(parse_u16(s), s.parse::<u16>().ok(), "input: {}", s);
    }
    assert_eq!(parse_u16("65535"), Some(65535));
    assert_eq!(parse_u16("65536"), None);
    assert_eq!(parse_u16("2022"), Some(2022));
}

#[test]
fn extension_is_lowercased() {
    assert_eq!(extract_extension("Some Title v01.CBZ"), ext("cbz".to_string(), ".CBZ"));
    assert_eq!(extract_extension("no extension here"), None);
    assert_eq!(extension_from_captures(Some(vec![Some(".EPUB"), Some("EPUB")])), ext("epub".to_string(), ".EPUB"));
    assert_eq!(extension_from_captures(None), None);
}

#[test]
fn volume_numbers_lose_their_leading_zeroes() {
    let caps = vec![Some("v01-02"), None, Some("01"), None, Some("-02"), Some("02"), None, None];
    assert_eq!(volume_from_range_captures(Some(caps)), ext("1-2".to_string(), "v01-02"));
    let caps = vec![Some("v00-02"), None, Some("00"), None, Some("-02"), Some("02"), None, None];
    assert_eq!(volume_from_range_captures(Some(caps)), ext("0".to_string(), "v00-02"));
    let caps = vec![Some("v03-00"), None, Some("03"), None, Some("-00"), Some("00"), None, None];
    assert_eq!(volume_from_range_captures(Some(caps)), ext("3".to_string(), "v03-00"));
    let caps = vec![Some(" v0.5 "), None, Some("0.5"), Some(".5"), None, None, None, None];
    assert_eq!(volume_from_range_captures(Some(caps)), ext(".5".to_string(), "v0.5"));
    assert_eq!(volume_from_word_captures(Some(vec![Some("Volume 000"), Some("000"), None])), ext("0".to_string(), "Volume 000"));
    assert_eq!(volume_from_word_captures(Some(vec![Some("Vol 26 "), Some("26"), None])), ext("26".to_string(), "Vol 26"));
    assert_eq!(volume_from_word_captures(None), None);
    assert_eq!(extract_volume("Title v007 (2020)"), ext("7".to_string(), "v007"));
    assert_eq!(extract_volume("Title v00"), ext("0".to_string(), "v00"));
    assert_eq!(extract_volume("Title Volume 000"), ext("0".to_string(), "Volume 000"));
    assert_eq!(extract_volume("Nothing to see"), None);
}

#[test]
fn chapter_shares_the_volume_rules() {
    let caps = vec![Some(" 0042 - Title"), Some(" "), Some("0042"), None, None, None, None, Some(" - Title")];
    assert_eq!(chapter_from_captures(Some(caps)), ext("42".to_string(), "0042 - Title"));
    assert_eq!(chapter_from_captures(None), None);
}

#[test]
fn markers_report_the_whole_match() {
    assert_eq!(marker_from_captures(Some(vec![Some("(PRE)")])), ext(true, "(PRE)"));
    assert_eq!(marker_from_captures(Some(vec![Some("(Digital)"), Some("Digital")])), ext(true, "(Digital)"));
    assert_eq!(marker_from_captures(None), None);
}

#[test]
fn year_needs_ascii_digits() {
    assert_eq!(year_from_captures(Some(vec![Some("(2021-2025)"), Some("2021"), Some("-2025")])), ext(2021, "(2021-2025)"));
    assert_eq!(year_from_captures(Some(vec![Some("(٢٠٢١)"), Some("٢٠٢١"), None])), None);
    assert_eq!(year_from_captures(None), None);
    assert_eq!(extract_year("Title (١٩٩٩) (Digital)"), None);
    assert_eq!(extract_year("Title (1999) (Digital)"), ext(1999, "(1999)"));
}

#[test]
fn revision_counts_from_two() {
    assert_eq!(revision_from_captures(Some(vec![Some("(f)"), None])), ext(2, "(f)"));
    assert_eq!(revision_from_captures(Some(vec![Some("[f1]"), Some("1")])), ext(3, "[f1]"));
    assert_eq!(revision_from_captures(Some(vec![Some("(R3)"), Some("3")])), ext(5, "(R3)"));
    assert_eq!(revision_from_captures(Some(vec![Some("(f٣)"), Some("٣")])), ext(2, "(f٣)"));
    assert_eq!(revision_from_captures(None), None);
    assert_eq!(extract_revision("Title [F3].cbz"), ext(5, "[F3]"));
    assert_eq!(extract_revision("Title [r].cbz"), ext(2, "[r]"));
    assert_eq!(extract_revision("Title (f٣).cbz"), ext(2, "(f٣)"));
}

#[test]
fn edition_value_is_trimmed() {
    assert_eq!(edition_from_captures(Some(vec![Some("( Deluxe Edition )"), Some(" Deluxe Edition ")]), false), ext("Deluxe Edition", "( Deluxe Edition )"));
    assert_eq!(edition_from_captures(Some(vec![Some(" New Edition"), Some(" New Edition")]), true), ext("New Edition", "New Edition"));
    assert_eq!(edition_from_captures(None, true), None);
}

#[test]
fn group_must_not_be_empty() {
    assert_eq!(release_group_from_captures(Some(vec![Some("[  ]"), Some("  ")])), None);
    assert_eq!(release_group_from_captures(Some(vec![Some("( Oak )"), Some(" Oak ")])), ext("Oak", "( Oak )"));
    assert_eq!(release_group_from_captures(None), None);
    assert_eq!(extract_group("Title v01 [ ]"), None);
    assert_eq!(extract_group("Title v01 (Oak)   "), ext("Oak", "(Oak)"));
    assert_eq!(extract_group("Title v01 (Oak) x"), None);
}

#[test]
fn publisher_falls_back_on_known_names() {
    let known = ["Dark Horse", "Vertical"];
    assert_eq!(
        extract_publisher("5 Centimeters per Second - One More Side - Complete [Vertical][Scans].pdf", &known),
        ext("Vertical", "Vertical")
    );
    assert_eq!(extract_publisher("Berserk v01 (Dark Horse) [Vertical]", &known), ext("Dark Horse", "Dark Horse"));
    assert_eq!(extract_publisher("Ishura v07 [Yen Audio] Vertical", &known), ext("Yen Audio", "[Yen Audio]"));
    assert_eq!(extract_publisher("Nothing here", &known), None);
}

#[test]
fn select_publisher_takes_the_first_rule_that_matched() {
    let s = "Title [Viz] [Yen Press]";
    let finds = vec![None, None, None, Some("[Viz]"), None, Some("[Yen Press]"), None, None];
    assert_eq!(select_publisher(&finds, s, &[]), ext("Viz", "[Viz]"));
    let finds = vec![None; 8];
    assert_eq!(select_publisher(&finds, s, &["Press"]), ext("Press", "Press"));
    assert_eq!(select_publisher(&finds, s, &[]), None);
    assert_eq!(publisher_rule(0).1, "Seven Seas Entertainment");
    assert_eq!(publisher_rule(7).1, "Square Enix");
}

#[test]
fn cleanup_keeps_the_first_title_only() {
    assert_eq!(cleanup("Attack on Titan/Shingeki no Kyojin   Complete"), "Attack on Titan".to_string());
    assert_eq!(cleanup("  Spy   Kyoushitsu  (2022) [Digital] "), "Spy Kyoushitsu".to_string());
    assert_eq!(cleanup("Why?! (2020)"), "Why?!".to_string());
    assert_eq!(cleanup(""), "".to_string());
}


#[test]
fn group_ignores_surrounding_whitespace() {
    let s = "  Lover Boy v01 (2025) (Digital) (1r0n) \t";
    assert_eq!(extract_group(s), extract_group(trim(s)));
    assert_eq!(trim(trim(s)), trim(s));
}

#[test]
fn white_space_matches_char_is_whitespace_everywhere() {
    for u in 0u32..=0x10FFFF {
        if let Some(c) = char::from_u32(u) {
            assert_eq!(is_white_space_char(c), c.is_whitespace(), "code point {:#x}", u);
        }
    }
}

#[test]
fn trim_agrees_with_str_trim() {
    for s in ["", " ", "a", " a", "a ", "\u{2029}a b\u{3000}", "\u{200b} x \u{200b}", "\n\t\r"] {
        assert_eq!(trim(s), s.trim(), "input: {:?}", s);
        assert_eq!(trim_start_char(s, ' '), s.trim_start_matches(' '), "input: {:?}", s);
    }
}

#[test]
fn cleanup_removes_complete_only_as_a_word() {
    assert_eq!(cleanup("The Incomplete"), "The Incomplete".to_string());
    assert_eq!(cleanup("The Incomplete (2020) [Digital]"), "The Incomplete".to_string());
    assert_eq!(cleanup("Berserk Complete"), "Berserk".to_string());
    assert_eq!(cleanup("Title - COMPLETE  "), "Title".to_string());
}
