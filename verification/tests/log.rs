use ams_yt_dw::log::prepend_log;

#[test]
fn prepend_puts_newest_line_on_top() {
    assert_eq!(prepend_log("old line\n", "new line"), "new line\nold line\n");
}

#[test]
fn prepend_on_empty_log() {
    assert_eq!(prepend_log("", "first"), "first\n");
}

#[test]
fn prepend_keeps_at_most_8000_bytes() {
    let current = "a".repeat(9000);
    let text = prepend_log(&current, "top");
    assert_eq!(text.len(), 8000);
    assert!(text.starts_with("top\naaa"));
}

#[test]
fn prepend_keeps_exactly_what_fits() {
    let current = "b".repeat(7995);
    let text = prepend_log(&current, "top");
    assert_eq!(text.len(), 7999);
    assert_eq!(text, format!("top\n{}", current));
}

#[test]
fn prepend_cuts_between_characters() {
    // 3998 two-byte characters after "top\n" (4 bytes): the cut at 8000 falls
    // right after the 3998th character.
    let current = "é".repeat(5000);
    let text = prepend_log(&current, "top");
    assert_eq!(text.len(), 8000);
    assert_eq!(text.chars().count(), 4 + 3998);
}

#[test]
fn prepend_cut_inside_a_character_keeps_the_last_whole_one() {
    // "a\n" + 7997 bytes + "✅" (3 bytes) = 8002 bytes; byte 8000 falls inside
    // the emoji, so the log is cut just before it.
    let current = format!("{}✅", "b".repeat(7997));
    let text = prepend_log(&current, "a");
    assert_eq!(text, format!("a\n{}", "b".repeat(7997)));
    assert_eq!(text.len(), 7999);
}

#[test]
fn prepend_cut_with_four_byte_characters() {
    // "🚀 x" is 6 bytes; 2000 of them after "top\n" go past the limit.
    let current = "🚀 x".repeat(2000);
    let text = prepend_log(&current, "top");
    assert!(text.len() <= 8000);
    assert!(text.starts_with("top\n🚀 x"));
    let joined = format!("top\n{}", current);
    assert!(joined.starts_with(&text));
    let next = joined[text.len()..].chars().next().unwrap();
    assert!(text.len() + next.len_utf8() > 8000);
}
