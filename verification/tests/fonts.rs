use rask::render::fonts::{
    discover_system_fonts, font_priority, is_conf_file, is_font_file, is_suited, next_candidate,
    sort_by_priority, FontRole, FoundFile, SystemFontEntry,
};
use rask::render::paths::{font_search_dirs, join, parse_fontconfig_file};

fn found(path: &str, key: &str) -> FoundFile {
    FoundFile { path: path.to_string(), key: key.to_string() }
}

fn entry(path: &str, priority: u8) -> SystemFontEntry {
    SystemFontEntry { path: path.to_string(), priority }
}

fn paths(fonts: &Vec<SystemFontEntry>) -> Vec<String> {
    fonts.iter().map(|f| f.path.clone()).collect()
}

#[test]
fn priority_of_preferred_families() {
    assert_eq!(font_priority("/usr/share/fonts/NotoSans.ttf"), 1);
    assert_eq!(font_priority("/usr/share/fonts/noto/NotoSans-Regular.ttf"), 1);
    assert_eq!(font_priority("/usr/share/fonts/DejaVuSans.ttf"), 2);
    assert_eq!(font_priority("LiberationSans-Regular.ttf"), 3);
    assert_eq!(font_priority("Ubuntu-Regular.ttf"), 4);
    assert_eq!(font_priority("/fonts/Cantarell.otf"), 5);
    assert_eq!(font_priority("/fonts/Cantarell-Regular.otf"), 5);
    assert_eq!(font_priority("NotoSansDisplay.ttf"), 6);
    assert_eq!(font_priority("OpenSans.ttf"), 10);
    assert_eq!(font_priority("Times.ttf"), 50);
}

#[test]
fn priority_of_variants_adds_fifty() {
    assert_eq!(font_priority("NotoSans-Bold.ttf"), 56);
    assert_eq!(font_priority("DejaVuSans-Oblique.ttf"), 60);
    assert_eq!(font_priority("LiberationSans-Italic.ttf"), 53);
    assert_eq!(font_priority("Ubuntu-Regular-Condensed.ttf"), 54);
    assert_eq!(font_priority("Times-Light.ttf"), 100);
    assert_eq!(font_priority("DejaVuSansMono.ttf"), 60);
    assert_eq!(font_priority("Inter-Thin.ttf"), 100);
    assert_eq!(font_priority("Inter-Black.otf"), 100);
    assert_eq!(font_priority("Inter-SemiBold.otf"), 100);
    assert_eq!(font_priority("Inter-ExtraBold.otf"), 100);
}

#[test]
fn priority_of_exotic_and_symbol_fonts_is_fixed() {
    assert_eq!(font_priority("NotoSans[wght].ttf"), 255);
    assert_eq!(font_priority("NotoSansArabic-Bold.ttf"), 255);
    assert_eq!(font_priority("NotoSansHebrew.ttf"), 255);
    assert_eq!(font_priority("NotoSansThai.ttf"), 255);
    assert_eq!(font_priority("NotoSansCJK-Regular.ttc"), 255);
    assert_eq!(font_priority("NotoSansAdlam.ttf"), 255);
    assert_eq!(font_priority("NotoSerifKorean.ttf"), 255);
    assert_eq!(font_priority("SomeJapanese.ttf"), 255);
    assert_eq!(font_priority("Indic.ttf"), 255);
    assert_eq!(font_priority("Syriac.ttf"), 255);
    assert_eq!(font_priority("Myanmar.ttf"), 255);
    assert_eq!(font_priority("Ethiopic.ttf"), 255);
    assert_eq!(font_priority("NotoColorEmoji.ttf"), 8);
    assert_eq!(font_priority("NotoEmoji-Bold.ttf"), 8);
    assert_eq!(font_priority("Symbola.ttf"), 8);
    assert_eq!(font_priority("StandardSymbolsPS.otf"), 8);
    assert_eq!(font_priority("HackNerdFont-Regular.ttf"), 8);
    // Exotic wins over symbol.
    assert_eq!(font_priority("EmojiArabic.ttf"), 255);
}

#[test]
fn priority_looks_at_the_stem_only() {
    assert_eq!(font_priority("/usr/share/fonts/bold/Times.ttf"), 50);
    assert_eq!(font_priority("/emoji/arabic/DejaVuSans.ttf"), 2);
    assert_eq!(font_priority("Times.bold"), 50);
    assert_eq!(font_priority("Times.bold.ttf"), 100);
    assert_eq!(font_priority(".sans"), 10);
    assert_eq!(font_priority(""), 50);
    assert_eq!(font_priority("dir.with.dots/"), 50);
}

#[test]
fn preferred_sorts_before_generic_and_bold_scores_higher() {
    let preferred = font_priority("/a/DejaVuSans.ttf");
    let generic = font_priority("/a/Generic.ttf");
    assert!(preferred < generic);
    assert!(font_priority("/a/DejaVuSans-Bold.ttf") > preferred);
    assert!(font_priority("/a/Generic-Bold.ttf") > generic);
    let fonts = discover_system_fonts(&vec![
        found("/a/Generic.ttf", "/a/Generic.ttf"),
        found("/a/DejaVuSans.ttf", "/a/DejaVuSans.ttf"),
    ]);
    assert_eq!(paths(&fonts), vec!["/a/DejaVuSans.ttf", "/a/Generic.ttf"]);
}

#[test]
fn font_files_by_extension() {
    assert!(is_font_file("a.ttf"));
    assert!(is_font_file("/x/y/a.OTF"));
    assert!(is_font_file("a.TtC"));
    assert!(!is_font_file("a.woff"));
    assert!(!is_font_file("ttf"));
    assert!(!is_font_file(".ttf"));
    assert!(!is_font_file("a.ttf/b"));
    assert!(!is_font_file("a.ttf.bak"));
    assert!(is_font_file("a.b.ttf"));
    assert!(is_conf_file("/etc/fonts/conf.d/10-x.conf"));
    assert!(!is_conf_file("/etc/fonts/conf.d/10-x.CONF"));
    assert!(!is_conf_file("/etc/fonts/conf.d/README"));
}

#[test]
fn discovery_drops_other_files_and_duplicates() {
    let fonts = discover_system_fonts(&vec![
        found("/link/b.ttf", "/real/b.ttf"),
        found("/real/readme.txt", "/real/readme.txt"),
        found("/real/b.ttf", "/real/b.ttf"),
        found("/real/c.otf", "/real/c.otf"),
        found("/other/c.otf", "/real/c.otf"),
    ]);
    assert_eq!(paths(&fonts), vec!["/link/b.ttf", "/real/c.otf"]);
    assert_eq!(fonts[0].priority, 50);
}

#[test]
fn discovery_does_not_count_keys_of_other_files() {
    let fonts = discover_system_fonts(&vec![
        found("/a/notes.txt", "same"),
        found("/a/x.ttf", "same"),
    ]);
    assert_eq!(paths(&fonts), vec!["/a/x.ttf"]);
}

#[test]
fn discovery_sorts_by_score_and_keeps_order_of_ties() {
    let fonts = discover_system_fonts(&vec![
        found("/z/Zeta.ttf", "1"),
        found("/z/NotoSansArabic.ttf", "2"),
        found("/z/Alpha.ttf", "3"),
        found("/z/NotoColorEmoji.ttf", "4"),
        found("/z/DejaVuSans.ttf", "5"),
        found("/z/Mid.ttf", "6"),
        found("/z/OpenSans-Bold.ttf", "7"),
    ]);
    assert_eq!(
        paths(&fonts),
        vec![
            "/z/DejaVuSans.ttf",
            "/z/NotoColorEmoji.ttf",
            "/z/Zeta.ttf",
            "/z/Alpha.ttf",
            "/z/Mid.ttf",
            "/z/OpenSans-Bold.ttf",
            "/z/NotoSansArabic.ttf",
        ]
    );
    let scores: Vec<u8> = fonts.iter().map(|f| f.priority).collect();
    assert_eq!(scores, vec![2, 8, 50, 50, 50, 60, 255]);
}

#[test]
fn discovery_of_nothing_is_empty() {
    assert!(discover_system_fonts(&Vec::new()).is_empty());
}

#[test]
fn sorting_is_stable() {
    let sorted = sort_by_priority(&vec![
        entry("c", 3),
        entry("a1", 1),
        entry("z", 0),
        entry("a2", 1),
        entry("last", 255),
        entry("a3", 1),
    ]);
    assert_eq!(paths(&sorted), vec!["z", "a1", "a2", "a3", "c", "last"]);
}

#[test]
fn candidates_for_text_and_emoji() {
    let fonts = vec![
        entry("/f/NotoColorEmoji.ttf", 8),
        entry("/f/Symbols.ttf", 8),
        entry("/f/DejaVuSans.ttf", 2),
        entry("/f/Twemoji.ttf", 8),
    ];
    assert_eq!(next_candidate(&fonts, FontRole::Text, 0), Some(2));
    assert_eq!(next_candidate(&fonts, FontRole::Text, 3), None);
    assert_eq!(next_candidate(&fonts, FontRole::Emoji, 0), Some(0));
    assert_eq!(next_candidate(&fonts, FontRole::Emoji, 1), Some(3));
    assert_eq!(next_candidate(&fonts, FontRole::Emoji, 4), None);
    assert_eq!(next_candidate(&fonts, FontRole::Emoji, 100), None);
    // A symbol font is no text font and no emoji font either.
    assert!(!is_suited(FontRole::Text, "/f/Symbols.ttf"));
    assert!(!is_suited(FontRole::Emoji, "/f/Symbols.ttf"));
    // A nerd font scores like a symbol font but may set text.
    assert!(is_suited(FontRole::Text, "/f/HackNerdFont.ttf"));
}

#[test]
fn fontconfig_directories() {
    let mut dirs = vec!["kept".to_string()];
    let content = "<?xml version=\"1.0\"?>\n<fontconfig>\n  <dir>/usr/share/fonts</dir>\n  <dir> ~/.fonts\t</dir>\n<dir>~</dir><dir>~x</dir>\n  <dir prefix=\"xdg\">fonts</dir>\n  <dir></dir>\n  <dir>/unclosed\n</fontconfig>";
    parse_fontconfig_file(content, Some("/home/u"), &mut dirs);
    assert_eq!(
        dirs,
        vec!["kept", "/usr/share/fonts", "/home/u/.fonts", "/home/u/", "/home/u/x", ""]
    );
}

#[test]
fn fontconfig_without_home_skips_home_entries() {
    let mut dirs = Vec::new();
    parse_fontconfig_file("<dir>~/.fonts</dir><dir>/opt/fonts</dir>", None, &mut dirs);
    assert_eq!(dirs, vec!["/opt/fonts"]);
}

#[test]
fn fontconfig_nested_and_broken_entries() {
    let mut dirs = Vec::new();
    parse_fontconfig_file("<dir>a<dir>b</dir>c</dir>", None, &mut dirs);
    assert_eq!(dirs, vec!["a<dir>b"]);
    let mut none = Vec::new();
    parse_fontconfig_file("no entries here </dir>", None, &mut none);
    assert!(none.is_empty());
    parse_fontconfig_file("", None, &mut none);
    assert!(none.is_empty());
}

#[test]
fn fontconfig_home_with_double_slash_is_absolute() {
    let mut dirs = Vec::new();
    parse_fontconfig_file("<dir>~//abs</dir>", Some("/home/u"), &mut dirs);
    assert_eq!(dirs, vec!["/abs"]);
}

#[test]
fn joining_paths() {
    assert_eq!(join("/home/u", ".fonts"), "/home/u/.fonts");
    assert_eq!(join("/home/u/", ".fonts"), "/home/u/.fonts");
    assert_eq!(join("", "fonts"), "fonts");
    assert_eq!(join("/home/u", "/abs"), "/abs");
    assert_eq!(join("/home/u", ""), "/home/u/");
}

#[test]
fn search_directories_in_order() {
    let dirs = font_search_dirs(
        Some("/home/u"),
        Some("/usr/share:/opt/data"),
        &vec!["/etc/fonts/extra".to_string()],
    );
    assert_eq!(
        dirs,
        vec![
            "/usr/share/fonts",
            "/usr/local/share/fonts",
            "/home/u/.fonts",
            "/home/u/.local/share/fonts",
            "/home/u/.nix-profile/share/fonts",
            "/usr/share/fonts",
            "/usr/share/X11/fonts",
            "/opt/data/fonts",
            "/opt/data/X11/fonts",
            "/etc/fonts/extra",
        ]
    );
}

#[test]
fn search_directories_without_home_and_data_dirs() {
    let dirs = font_search_dirs(None, None, &Vec::new());
    assert_eq!(dirs, vec!["/usr/share/fonts", "/usr/local/share/fonts"]);
    let empty = font_search_dirs(None, Some(""), &Vec::new());
    assert_eq!(
        empty,
        vec!["/usr/share/fonts", "/usr/local/share/fonts", "fonts", "X11/fonts"]
    );
    let trailing = font_search_dirs(None, Some("/a:"), &Vec::new());
    assert_eq!(
        trailing,
        vec![
            "/usr/share/fonts",
            "/usr/local/share/fonts",
            "/a/fonts",
            "/a/X11/fonts",
            "fonts",
            "X11/fonts"
        ]
    );
}
