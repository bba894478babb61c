use lyricrail::text::{is_whitespace, trimmed};

#[test]
fn white_space_agrees_with_the_standard_library() {
    for code in 0u32..0x3100 {
        if let Some(c) = char::from_u32(code) {
            assert_eq!(is_whitespace(c), c.is_whitespace(), "U+{code:04X}");
        }
    }
    for c in ['\u{FEFF}', '\u{180E}', '\u{200B}', 'a', '\u{10FFFF}'] {
        assert_eq!(is_whitespace(c), c.is_whitespace());
    }
}

#[test]
fn trimming_removes_unicode_white_space_at_both_ends() {
    let text = "\u{3000}\t Song \u{A0}\u{2009}";
    assert_eq!(trimmed(text), text.trim());
    assert_eq!(trimmed("   "), "");
    assert_eq!(trimmed("a b"), "a b");
}
