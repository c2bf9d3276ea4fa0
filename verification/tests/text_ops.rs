use cosmic_ext_applet_cheatsheet::text::{
    contains, find, join, parse_u32, replace, rfind, split, split_whitespace, str_eq,
    to_ascii_lowercase, trim, u32_to_string,
};

#[test]
fn str_eq_compares_characters() {
    assert!(str_eq("Super + Q", "Super + Q"));
    assert!(!str_eq("Super + Q", "Super + q"));
    assert!(!str_eq("abc", "ab"));
    assert!(str_eq("", ""));
}

#[test]
fn contains_finds_substrings() {
    assert!(contains("cosmic-ext-applet-cheatsheet --window", "--window"));
    assert!(!contains("cosmic-term", "--window"));
    assert!(contains("anything", ""));
    assert!(!contains("", "x"));
    assert!(contains("←↓↑→", "↑→"));
}

#[test]
fn trim_strips_unicode_white_space() {
    assert_eq!(trim("  eng \n"), "eng");
    assert_eq!(trim("\u{3000}nor\u{a0}"), "nor");
    assert_eq!(trim("   "), "");
    assert_eq!(trim("a b"), "a b");
}

#[test]
fn split_whitespace_drops_empty_pieces() {
    assert_eq!(split_whitespace("  my-tool   --flag\tx "), vec!["my-tool", "--flag", "x"]);
    assert!(split_whitespace("   ").is_empty());
    assert!(split_whitespace("").is_empty());
}

#[test]
fn split_and_join_follow_std() {
    assert_eq!(split("Super + Shift + Q", " + "), vec!["Super", "Shift", "Q"]);
    assert_eq!(split("Q", " + "), vec!["Q"]);
    assert_eq!(split("a++b", "+"), vec!["a", "", "b"]);
    assert_eq!(split("", ":"), vec![""]);
    let parts: Vec<String> = vec!["a".into(), "b".into(), "c".into()];
    assert_eq!(join(&parts, "  /  "), "a  /  b  /  c");
    assert_eq!(join(&Vec::new(), " + "), "");
    for s in ["Super + Shift + Q", "a++b", "", "x + "] {
        assert_eq!(split(s, " + "), s.split(" + ").collect::<Vec<_>>());
    }
}

#[test]
fn find_and_rfind_give_character_positions() {
    assert_eq!(find("ab + cd + ef", " + "), Some(2));
    assert_eq!(rfind("ab + cd + ef", " + "), Some(7));
    assert_eq!(find("abc", "x"), None);
    assert_eq!(rfind("abc", "x"), None);
    assert_eq!(find("abc", ""), Some(0));
}

#[test]
fn replace_is_left_to_right() {
    assert_eq!(replace("ui.title.x", ".", "-"), "ui-title-x");
    assert_eq!(replace("Focus {}", "{}", "left"), "Focus left");
    assert_eq!(replace("aaa", "aa", "b"), "ba");
    assert_eq!(replace("a\0b\0", "\0", " "), "a b ");
}

#[test]
fn parse_u32_matches_std() {
    for s in ["0", "7", "+5", "", "+", "-1", "007", "4294967295", "4294967296", "12a", " 3", "99999999999999"] {
        assert_eq!(parse_u32(s), s.parse::<u32>().ok(), "input {s:?}");
    }
}

#[test]
fn u32_to_string_matches_std() {
    for n in [0u32, 1, 9, 10, 42, 1000, u32::MAX] {
        assert_eq!(u32_to_string(n), n.to_string());
    }
}

#[test]
fn ascii_lowercase_leaves_other_characters() {
    assert_eq!(to_ascii_lowercase("Cosmic-EXT-Applet-Cheatsheet ÄB"), "cosmic-ext-applet-cheatsheet Äb");
}
