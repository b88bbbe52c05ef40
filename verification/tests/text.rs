use ams_yt_dw::text::{contains_str, replace_char_in, split_white_space_of, strip_suffixes_of, trim};

#[test]
fn trim_unicode_whitespace() {
    assert_eq!(trim("\u{3000} a b \u{2028}\n"), "a b");
    assert_eq!(trim("   "), "");
    assert_eq!(trim("x"), "x");
    assert_eq!(trim("\u{200B}x"), "\u{200B}x");
}

#[test]
fn split_like_std() {
    for s in ["  a  b\tc\n", "", "   ", "one", "\u{85}x\u{A0}y "] {
        let mine: Vec<String> =
            split_white_space_of(s).into_iter().map(|w| w.into_iter().collect()).collect();
        let std: Vec<String> = s.split_whitespace().map(|w| w.to_string()).collect();
        assert_eq!(mine, std);
    }
}

#[test]
fn contains_like_std() {
    assert!(contains_str("abc[download]x", "[download]"));
    assert!(!contains_str("[downloa]", "[download]"));
    assert!(contains_str("", ""));
    assert!(!contains_str("ab", "abc"));
}

#[test]
fn strip_suffix_repeatedly() {
    assert_eq!(strip_suffixes_of("node.exe", ".exe"), "node");
    assert_eq!(strip_suffixes_of("a.exe.exe", ".exe"), "a");
    assert_eq!(strip_suffixes_of("deno", ".exe"), "deno");
    assert_eq!(strip_suffixes_of("node.exe", ""), "node.exe");
}

#[test]
fn replace_backslashes() {
    assert_eq!(replace_char_in("a\\b\\c", '\\', '/'), "a/b/c");
}
