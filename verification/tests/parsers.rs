use release_parsers::extract::{
    extract_chapter, extract_digital, extract_digital_compilation, extract_edited,
    extract_edition, extract_extension, extract_group, extract_pre, extract_publisher,
    extract_revision, extract_scan, extract_volume, extract_year, Extract,
};
use release_parsers::title::cleanup;

fn ext<T>(value: T, text: &str) -> Option<Extract<'_, T>> {
    Some(Extract { value, text })
}

#[test]
fn test_extract_extension() {
    assert_eq!(
        extract_extension("The Eminence in Shadow v01 (2021) (Digital) (1r0n).cbz"),
        ext("cbz".to_string(), ".cbz")
    );
    assert_eq!(extract_extension("Youjo Senki | The Saga of Tanya the Evil Vol.26"), None);
}

#[test]
fn test_extract_publisher() {
    let cases: Vec<(&str, Option<Extract<&str>>)> = vec![
        ("Witch and Mercenary v02 [Audiobook] [Seven Seas Siren] [Stick]", ext("Seven Seas Siren", "[Seven Seas Siren]")),
        ("The Too-Perfect Saint - Tossed Aside by My Fiancé and Sold to Another Kingdom v01-02 [Seven Seas] [nao]\t", ext("Seven Seas Entertainment", "[Seven Seas]")),
        ("Hikyouiku kara Nigetai Watashi | I Want to Escape from Princess Lessons v01 (2025) (Digital) (Seven Seas Edition) (1r0n)", ext("Seven Seas Entertainment", "(Seven Seas Edition)")),
        ("Totto-Chan: The Little Girl at the Window [Kodansha USA] [Stick]", ext("Kodansha", "[Kodansha USA]")),
        ("That Time I Got Reincarnated as a Slime V01-08 (danke-empire) (Kodansha Comics)\t", ext("Kodansha", "(Kodansha Comics)")),
        ("Attack on Titan/Shingeki no Kyojin v26 (2018) (digital-SD) [Kodansha]", ext("Kodansha", "[Kodansha]")),
        ("Spy x Family - Family Portrait [VIZ Media] [Bondman]", ext("Viz", "[VIZ Media]")),
        ("Slam Dunk - New Edition v13 (Colored Council) (Viz)", ext("Viz", "(Viz)")),
        ("The Hero-Killing Bride - Volume 02 [J-Novel Club] [Premium].epub", ext("J-Novel Club", "[J-Novel Club]")),
        ("The Hero-Killing Bride - Volume 02 [J Novels Club] [Premium].epub", ext("J-Novel Club", "[J Novels Club]")),
        ("The Summer Hikaru Died v01 [Yen Press] [Stick]", ext("Yen Press", "[Yen Press]")),
        ("Ishura v07 [Yen Audio] [Stick].m4b", ext("Yen Audio", "[Yen Audio]")),
        ("The Healer Consort 001-010 (2025) (Digital) (Oak)", None),
    ];
    for (input, expected) in cases {
        assert_eq!(extract_publisher(input, &[]), expected, "input: {}", input);
    }
}

#[test]
fn test_extract_digital() {
    assert_eq!(extract_digital("Lover Boy v01 (2025) (Digital) (1r0n).cbz"), ext(true, "(Digital)"));
    assert_eq!(
        extract_digital("Attack on Titan v26 (2018) (digital-SD) [Kodansha].zip"),
        ext(true, "(digital-SD)")
    );
    assert_eq!(extract_digital("Dandadan 191 (2025)"), None);
}

#[test]
fn test_extract_scan() {
    assert_eq!(
        extract_scan("5 Centimeters per Second - One More Side - Complete [Vertical][Scans].pdf"),
        ext(true, "[Scans]")
    );
    assert_eq!(
        extract_scan("Alice in the Country of Diamonds - Bet on My Heart - Complete [Seven Seas][Scans_Compressed].pdf"),
        ext(true, "[Scans_Compressed]")
    );
}

#[test]
fn test_extract_digital_compilation() {
    assert_eq!(
        extract_digital_compilation("Trying Out Alchemy After Being Fired as an Adventurer! 001-042 as v01-09 (Digital-Compilation) (Square Enix) (DigitalMangaFan)\t"),
        ext(true, "(Digital-Compilation)")
    );
    assert_eq!(
        extract_digital_compilation("The Healer Consort 001-010 as v01-02 (Digital-Compilation) (Oak)"),
        ext(true, "(Digital-Compilation)")
    );
}

#[test]
fn test_extract_edited() {
    assert_eq!(extract_edited("Smile Down the Runway v22 (2022) (Digital) (ED).cbz"), ext(true, "(ED)"));
    assert_eq!(extract_edited("Kill the Villainess 001 (2021) (Digital) (1r0n).cbz"), None);
}

#[test]
fn test_extract_pre() {
    assert_eq!(extract_pre("Natsume & Natsume v04 (2023) (Digital) (1r0n) (PRE)"), ext(true, "(PRE)"));
    assert_eq!(extract_pre("The Otome Heroine's Fight for Survival v05 Prepub.epub"), ext(true, "Prepub"));
}

#[test]
fn test_extract_volume() {
    let cases: Vec<(&str, &str, &str)> = vec![
        ("The Eminence in Shadow v01 (2021) (Digital) (1r0n).cbz", "1", "v01"),
        ("The Eminence in Shadow v12.5 (2025) (Digital) (1r0n).cbz", "12.5", "v12.5"),
        ("The Death Mage v01-02 (2023-2025) (Digital) (DigitalMangaFan)", "1-2", "v01-02"),
        ("The Death Mage v01-02.25 (2023-2025) (Digital) (DigitalMangaFan)", "1-2.25", "v01-02.25"),
        ("The Banished Saint's Pilgrimage: From Dying to Thriving 001-010 as v01-02 (Digital-Compilation) (Oak)", "1-2", "001-010 as v01-02"),
        ("Programmed for Heartbreak: Sartain in Love 001-029 as v01-04 (Digital-Compilation) (Oak)", "1-4", "001-029 as v01-04"),
        ("Programmed for Heartbreak: Sartain in Love 001-029 as v01.24-04.24 (Digital-Compilation) (Oak)", "1.24-4.24", "001-029 as v01.24-04.24"),
        ("The Otome Heroine's Fight for Survival Volume 05 PREPUB [10/14]", "5", "Volume 05"),
        ("The Hero and the Sage, Reincarnated and Engaged - Volume 04 [J-Novel Club]", "4", "Volume 04"),
        ("Three Cheats from Three Goddesses: The Broke Baron’s Youngest Wants a Relaxing Life - Volume 01 [J-Novel Club]", "1", "Volume 01"),
        ("Veil - Vol 1 [We Need More Yankiis]", "1", "Vol 1"),
        ("Youjo Senki | The Saga of Tanya the Evil Vol.26", "26", "Vol.26"),
        ("fireforce_vol32.pdf", "32", "vol32"),
        ("Overlord v01 - The Undead King [Yen Press] [LuCaZ] {r3}.epub", "1", "v01 - The Undead King"),
        ("Boogiepop - Volume 01 - Boogiepop and Others.epub", "1", "Volume 01 - Boogiepop and Others"),
    ];
    for (input, value, text) in cases {
        assert_eq!(extract_volume(input), ext(value.to_string(), text), "input: {}", input);
    }
}

#[test]
fn test_extract_chapter() {
    let cases: Vec<(&str, &str, &str)> = vec![
        ("2.5 Dimensional Seduction 185.1 (2025) (Digital) (Rillant).cbz", "185.1", "185.1"),
        ("Sakamoto Days 210 (2025) (Digital) (Rillant).cbz", "210", "210"),
        ("I'm a Curse Crafter, and I Don't Need an S-Rank Party! 042.2 (2025) (Digital) (Valdearg).cbz", "42.2", "042.2"),
        ("The Case Study of Vanitas 063 (2024) (Digital) (LuCaZ).cbz", "63", "063"),
        ("Hyeonjung's Residence c57 (Void).cbz", "57", "c57"),
        ("The Crow's Prince c095 - Season 2 Finale (2022) (Digital) (Dalte).cbz", "95", "c095 - Season 2 Finale"),
        ("They ridiculed me for my luckless job, but it's not actually that bad 002 - Of Course it's Weird! (2022) (Digital) (AntsyLich)", "2", "002 - Of Course it's Weird!"),
        ("Edens Zero v01-31, 276-293 (2018-2025) (Digital) (danke-Empire, DeadMan, SlikkyOak)", "276-293", ", 276-293"),
        ("Wistoria - Wand and Sword v01-08 + 033-051 (2022-2025) (Digital) (1r0n)", "33-51", "+ 033-051"),
        ("Merin the Mermaid - 00 - Prologue (Digital) (Cobalt001)", "0", "00 - Prologue"),
    ];
    for (input, value, text) in cases {
        assert_eq!(extract_chapter(input), ext(value.to_string(), text), "input: {}", input);
    }
}

#[test]
fn test_extract_year() {
    assert_eq!(
        extract_year("[Unpaid Ferryman] Gamaran: Shura v01-31 (2022-2025) (Digital) (danke-Empire, Kaos, Rillant)"),
        ext(2022, "(2022-2025)")
    );
    assert_eq!(extract_year("The Healer Consort 001-010 (2025) (Digital) (Oak)"), ext(2025, "(2025)"));
    assert_eq!(
        extract_year("The Eminence in Shadow v01-12 (2021-2025) (Digital) (1r0n)"),
        ext(2021, "(2021-2025)")
    );
}

#[test]
fn test_extract_revision() {
    assert_eq!(extract_revision("One-Punch Man 193 (2024) (Digital) (Rillant) (f).cbz"), ext(2, "(f)"));
    assert_eq!(extract_revision("One-Punch Man 193 (2024) (Digital) (Rillant) {f2}.cbz"), ext(4, "{f2}"));
    assert_eq!(extract_revision("The Beginning After the End, Vol. 11 [PZG] {r2}.m4b"), ext(4, "{r2}"));
    assert_eq!(extract_revision("The Healer Consort 001-010 (2025) (Digital) (Oak)"), None);
}

#[test]
fn test_extract_edition() {
    let cases: Vec<(&str, &str, &str)> = vec![
        ("Uzumaki (2018) (Digital) (Deluxe Edition 3-in-1) (Mr. Kimiko-Teikō) (ED).cbz", "Deluxe Edition 3-in-1", "(Deluxe Edition 3-in-1)"),
        ("Yokohama Kaidashi Kikou - Deluxe Edition (2022-2024) (Digital) (1r0n).cbz", "Deluxe Edition", "Deluxe Edition"),
        ("Adults' Picture Book - New Edition v01-02 (2024) (Digital) (LuCaZ).cbz", "New Edition", "New Edition"),
        ("Gravitation - Collector's Edition v01 (2024) (Digital) (LuCaZ).cbz", "Collector's Edition", "Collector's Edition"),
        ("My Name Is Shingo - The Perfect Edition v01-02 (2024) (Digital) (1r0n).cbz", "The Perfect Edition", "The Perfect Edition"),
        ("86--EIGHTY-SIX - Operation High School (2024) (Omnibus Edition) (Digital) (1r0n).cbz", "Omnibus Edition", "(Omnibus Edition)"),
        ("86--EIGHTY-SIX - Operation High School (2024) (Collector's Edition) (Digital) (1r0n).cbz", "Collector's Edition", "(Collector's Edition)"),
        ("Zatch Bell! Revamped Edition v01 (2018 E-Book) (Zatch Bell Makai Scanlations)", "Revamped Edition", "Revamped Edition"),
        ("Hellsing v01-03 (2023-2024) (Second Edition) (Digital) (LuCaZ)", "Second Edition", "(Second Edition)"),
        ("Magic Knight Rayearth 2 {25th Anniversary Edition} (2020) (Digital) (XRA-Empire)", "25th Anniversary Edition", "{25th Anniversary Edition}"),
        ("Gunsmith Cats - Revised Edition (2007) (Digital) (XRA-Empire)", "Revised Edition", "Revised Edition"),
        ("Tekkonkinkreet - Black & White 30th Anniversary Edition (2023) (Digital) (1r0n)", "Black & White 30th Anniversary Edition", "Black & White 30th Anniversary Edition"),
        ("Tekkonkinkreet - (Black & White 30th Anniversary Edition) (2023) (Digital) (1r0n)", "Black & White 30th Anniversary Edition", "(Black & White 30th Anniversary Edition)"),
    ];
    for (input, value, text) in cases {
        assert_eq!(extract_edition(input), ext(value, text), "input: {}", input);
    }
}

#[test]
fn test_extract_group() {
    assert_eq!(extract_group("Lover Boy v01 (2025) (Digital) (1r0n)"), ext("1r0n", "(1r0n)"));
    assert_eq!(
        extract_group("Witch and Mercenary v02 [Audiobook] [Seven Seas Siren] [Stick]"),
        ext("Stick", "[Stick]")
    );
}

#[test]
fn test_cleanup() {
    assert_eq!(
        cleanup("Tekkonkinkreet - (Black & White 30th Anniversary Edition) (2023) (Digital) (1r0n)"),
        "Tekkonkinkreet".to_string()
    );
    assert_eq!(cleanup("Youjo Senki | The Saga of Tanya the Evil Vol.26"), "Youjo Senki".to_string());
    assert_eq!(cleanup("The Beginning After the End,"), "The Beginning After the End".to_string());
}
