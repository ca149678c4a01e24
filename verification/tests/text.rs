use url_shortener::text::{is_valid_url, is_whitespace_char, normalize_url, trim};

#[test]
fn trim_matches_std() {
    let samples = [
        "", " ", "abc", "  abc  ", "\t\na b\r\n", "\u{85}x\u{2028}", "\u{200b}x\u{200b}",
        "\u{1680}\u{2000}\u{200a}y\u{202f}\u{205f}\u{3000}", "\u{feff}z",
    ];
    for s in samples {
        assert_eq!(trim(s), s.trim(), "{s:?}");
    }
}

#[test]
fn whitespace_matches_std() {
    for x in 0..0x11000u32 {
        if let Some(c) = char::from_u32(x) {
            assert_eq!(is_whitespace_char(c), c.is_whitespace(), "{x:#x}");
        }
    }
}

#[test]
fn url_check() {
    assert!(is_valid_url("http://x"));
    assert!(is_valid_url("https://"));
    assert!(!is_valid_url(""));
    assert!(!is_valid_url("https:/"));
    assert!(!is_valid_url(" http://x"));
    assert_eq!(normalize_url("  https://x "), Some("https://x".to_string()));
    assert_eq!(normalize_url("  mailto:x "), None);
}
