use share_to_ytdlp::chars::{chars_of, encode_utf16, is_whitespace, to_ascii_lower};

#[test]
fn white_space_matches_std_for_every_char() {
    for value in 0u32..=0x10FFFF {
        if let Some(c) = char::from_u32(value) {
            assert_eq!(is_whitespace(c), c.is_whitespace(), "{value:#x}");
        }
    }
}

#[test]
fn ascii_lowercase_matches_std() {
    for value in 0u32..0x300 {
        if let Some(c) = char::from_u32(value) {
            assert_eq!(to_ascii_lower(c), c.to_ascii_lowercase());
        }
    }
}

#[test]
fn utf16_matches_std() {
    for text in ["", "plain", "caf\u{00e9}", "\u{1f600} smile", "\u{10ffff}\u{ffff}\u{d7ff}"] {
        let expected: Vec<u16> = text.encode_utf16().collect();
        assert_eq!(encode_utf16(text), expected);
    }
}

#[test]
fn chars_in_order() {
    assert_eq!(chars_of("a\u{00e9}\u{1f600}"), vec!['a', '\u{00e9}', '\u{1f600}']);
    assert!(chars_of("").is_empty());
}
