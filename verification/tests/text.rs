use codex_api::text::{
    chars_of, contains_char, decimal_text, is_white_space, join2, numbered_text, same_text,
    text_of, to_ascii_lower, trim,
};

#[test]
fn white_space_is_that_of_unicode() {
    for code in 0..=0x10ffffu32 {
        if let Some(c) = char::from_u32(code) {
            assert_eq!(is_white_space(c), c.is_whitespace(), "{code:x}");
        }
    }
}

#[test]
fn trimming_removes_white_space_at_the_ends_only() {
    for text in ["", " ", "a", "  a b\t\n", "\u{3000}x\u{85}", "[DONE]\r\n", " \u{200b} "] {
        assert_eq!(trim(text), text.trim(), "{text:?}");
    }
}

#[test]
fn numbers_are_written_in_decimal() {
    for n in [0u32, 7, 9, 10, 99, 100, 101, 65535, 4294967295] {
        assert_eq!(decimal_text(n), format!("{n}"));
        assert_eq!(numbered_text("tool_", n), format!("tool_{n}"));
    }
}

#[test]
fn texts_are_compared_character_by_character() {
    assert!(same_text("", ""));
    assert!(same_text("h\u{e9}", "h\u{e9}"));
    assert!(!same_text("a", "b"));
    assert!(!same_text("a", "ab"));
    assert!(!same_text("Stop", "stop"));
}

#[test]
fn only_ascii_letters_are_lowered() {
    assert_eq!(to_ascii_lower("PwSh.EXE[@`{"), "pwsh.exe[@`{");
    assert_eq!(to_ascii_lower("\u{c9}A"), "\u{c9}a");
}

#[test]
fn characters_and_texts_convert_into_each_other() {
    let chars = chars_of("a\u{4e2d}b");
    assert_eq!(chars, vec!['a', '\u{4e2d}', 'b']);
    assert_eq!(text_of(&chars, 1, 3), "\u{4e2d}b");
    assert_eq!(text_of(&chars, 2, 2), "");
    assert!(contains_char("a/b", '/'));
    assert!(!contains_char("ab", '/'));
    assert_eq!(join2("a", "b"), "ab");
}
