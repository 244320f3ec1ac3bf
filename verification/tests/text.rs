use cockpit_maintenance::text::{
    chars_of, contains_chars, decimal_text, is_white_space, join_texts, lower_chars, same_chars,
    signed_decimal_text, to_lower_char, trim_text,
};

fn strings(parts: &[&str]) -> Vec<String> {
    parts.iter().map(|s| s.to_string()).collect()
}

#[test]
fn white_space_is_that_of_unicode() {
    for n in 0..=0x10ffffu32 {
        if let Some(c) = char::from_u32(n) {
            assert_eq!(is_white_space(c), c.is_whitespace(), "U+{:04X}", n);
        }
    }
}

#[test]
fn lower_case_is_that_of_ascii() {
    for n in 0..=0x10ffffu32 {
        if let Some(c) = char::from_u32(n) {
            assert_eq!(to_lower_char(c), c.to_ascii_lowercase(), "U+{:04X}", n);
        }
    }
    let lower: String = lower_chars("COCKPIT-Tools.EXE \u{c0}\u{130}").into_iter().collect();
    assert_eq!(lower, "cockpit-tools.exe \u{c0}\u{130}");
}

#[test]
fn trim_takes_white_space_from_both_ends() {
    assert_eq!(trim_text("  a b\t\r\n"), "a b");
    assert_eq!(trim_text("\u{3000}\u{a0}x\u{2009}\u{85}"), "x");
    assert_eq!(trim_text("x\u{200b}"), "x\u{200b}");
    assert_eq!(trim_text("nothing"), "nothing");
    assert_eq!(trim_text(" \n\t "), "");
    assert_eq!(trim_text(""), "");
    let once = trim_text("\n đã xong \n");
    assert_eq!(once, "đã xong");
    assert_eq!(trim_text(&once), once);
}

#[test]
fn search_finds_what_stands_in_a_text() {
    let has = |text: &str, pattern: &str| contains_chars(&chars_of(text), &chars_of(pattern));
    assert!(has("abcabd", "abd"));
    assert!(has("aab", "ab"));
    assert!(has("abc", "abc"));
    assert!(has("abc", ""));
    assert!(has("", ""));
    assert!(!has("", "a"));
    assert!(!has("abc", "abcd"));
    assert!(!has("abc", "ac"));
}

#[test]
fn same_chars_compares_whole_lists() {
    assert!(same_chars(&chars_of("ab"), &chars_of("ab")));
    assert!(!same_chars(&chars_of("ab"), &chars_of("aB")));
    assert!(!same_chars(&chars_of("ab"), &chars_of("abc")));
    assert!(same_chars(&chars_of(""), &chars_of("")));
}

#[test]
fn numbers_are_written_in_decimal() {
    for n in [0u64, 1, 9, 10, 11, 99, 100, 4294967295, u64::MAX] {
        assert_eq!(decimal_text(n), n.to_string());
    }
    for n in [0i32, 7, -1, -10, 128, i32::MAX, i32::MIN] {
        assert_eq!(signed_decimal_text(n), n.to_string());
    }
}

#[test]
fn joining_puts_the_separator_between_two() {
    assert_eq!(join_texts(&strings(&[]), " "), "");
    assert_eq!(join_texts(&strings(&["a"]), " "), "a");
    assert_eq!(join_texts(&strings(&["a", "", "b"]), ", "), "a, , b");
}
