use k6r::text::{chars_of, has_char, has_prefix, split_text, text_less, trim_text, white_space};

#[test]
fn split_keeps_empty_pieces() {
    assert_eq!(split_text("a::b", ':'), vec!["a", "", "b"]);
    assert_eq!(split_text("", ':'), vec![""]);
    assert_eq!(split_text("x:", ':'), vec!["x", ""]);
}

#[test]
fn prefix_and_char_tests() {
    assert!(has_prefix("http_reqs", "http_"));
    assert!(!has_prefix("http", "http_"));
    assert!(has_char("a{b}", '{'));
    assert!(!has_char("ab", '{'));
}

#[test]
fn lexicographic_order() {
    assert!(text_less("abc", "abd"));
    assert!(text_less("ab", "abc"));
    assert!(!text_less("abc", "abc"));
    assert!(text_less("Zeta", "alpha"));
    assert!(!text_less("b", "a"));
}

#[test]
fn chars_are_kept_in_order() {
    assert_eq!(chars_of("µs"), vec!['µ', 's']);
}

#[test]
fn trim_matches_std() {
    let samples = [
        "  a b \r\n",
        "\t\n",
        "",
        "x",
        "\u{3000}\u{85}mid dle\u{2028}\u{a0}",
        "\u{200b}kept\u{200b}",
        " \u{1680}",
    ];
    for s in samples {
        assert_eq!(trim_text(s), s.trim());
    }
}

#[test]
fn white_space_matches_std() {
    for u in 0u32..0x3100 {
        if let Some(c) = char::from_u32(u) {
            assert_eq!(white_space(c), c.is_whitespace(), "code point {:x}", u);
        }
    }
}
