use edit_prediction::text::{
    contains, head_of, is_blank, is_whitespace, remove_whitespace, starts_with,
    to_ascii_lowercase, trim, width_of,
};

#[test]
fn white_space_is_that_of_unicode() {
    for c in '\0'..=char::MAX {
        assert_eq!(is_whitespace(c), c.is_whitespace(), "{:?}", c);
        assert_eq!(width_of(c), c.len_utf8(), "{:?}", c);
    }
}

#[test]
fn trimming() {
    for text in ["", " ", "\t\u{a0}x y\u{3000}\n", "x", " x", "x ", "é\u{2028}"] {
        assert_eq!(trim(text), text.trim());
        assert_eq!(trim(&trim(text)), trim(text));
        assert_eq!(is_blank(text), text.trim().is_empty());
    }
}

#[test]
fn lower_case() {
    assert_eq!(to_ascii_lowercase("Add IMPORT from Ä z[@"), "add import from Ä z[@");
}

#[test]
fn white_space_is_removed() {
    assert_eq!(remove_whitespace(" C \t+\u{a0}+ "), "C++");
}

#[test]
fn search() {
    for (text, part) in [("", ""), ("abc", ""), ("aab", "ab"), ("abc", "abcd"), ("", "a"), ("añb", "ñb")] {
        assert_eq!(contains(text, part), text.contains(part));
        assert_eq!(starts_with(text, part), text.starts_with(part));
    }
}

#[test]
fn first_lines() {
    assert_eq!(head_of("a\nb\nc", 2), ("a\nb".to_string(), 2));
    assert_eq!(head_of("a\nb\n", 2), ("a\nb".to_string(), 2));
    assert_eq!(head_of("a\nb", 2), ("a\nb".to_string(), 2));
    assert_eq!(head_of("", 2), (String::new(), 1));
    assert_eq!(head_of("\n\n", 1), (String::new(), 1));
}
