use openrouter_api::text::{
    after_last_index, char_is_space, chars_of, contains_text, ends_with, excerpt, index_of,
    matches_at, same, slice, starts_with, string_of, trim_bounds,
};

fn chars(text: &str) -> Vec<char> {
    text.chars().collect()
}

#[test]
fn white_space_is_the_unicode_property() {
    for c in ['\t', '\n', '\u{b}', '\u{c}', '\r', ' ', '\u{85}', '\u{a0}', '\u{1680}', '\u{2000}', '\u{200a}', '\u{2028}', '\u{2029}', '\u{202f}', '\u{205f}', '\u{3000}'] {
        assert!(char_is_space(c));
    }
    for c in ['a', '0', '\u{8}', '\u{e}', '\u{200b}', '\u{feff}', '\u{1f}', '\u{180e}'] {
        assert!(!char_is_space(c));
    }
}

#[test]
fn white_space_agrees_with_the_standard_library() {
    let mut code = 0u32;
    while code < 0x3100 {
        if let Some(c) = char::from_u32(code) {
            assert_eq!(char_is_space(c), c.is_whitespace());
        }
        code += 1;
    }
}

#[test]
fn trim_takes_white_space_off_both_ends() {
    assert_eq!(trim_bounds(&chars("  ab c \r\n")), (2, 6));
    assert_eq!(trim_bounds(&chars("abc")), (0, 3));
    assert_eq!(trim_bounds(&chars("   ")), (0, 0));
    assert_eq!(trim_bounds(&chars("")), (0, 0));
    assert_eq!(trim_bounds(&chars("\u{3000}x\u{a0}")), (1, 2));
}

#[test]
fn conversions_keep_the_characters() {
    assert_eq!(chars_of("héllo"), vec!['h', 'é', 'l', 'l', 'o']);
    assert_eq!(string_of(&chars("héllo"), 1, 4), "éll");
    assert_eq!(string_of(&chars("abc"), 3, 3), "");
    assert_eq!(slice(&chars("abcdef"), 2, 4), vec!['c', 'd']);
}

#[test]
fn searches_find_what_is_there() {
    let s = chars("openrouter/auto:free");
    assert!(starts_with(&s, &chars("open")));
    assert!(!starts_with(&s, &chars("pen")));
    assert!(starts_with(&s, &chars("")));
    assert!(ends_with(&s, &chars(":free")));
    assert!(!ends_with(&s, &chars("free:")));
    assert!(!ends_with(&chars("ee"), &chars(":free")));
    assert!(contains_text(&s, &chars("router/")));
    assert!(contains_text(&s, &chars("")));
    assert!(contains_text(&s, &chars("openrouter/auto:free")));
    assert!(!contains_text(&s, &chars("routes")));
    assert!(!contains_text(&chars("ab"), &chars("abc")));
    assert!(matches_at(&s, &chars("auto"), 11));
    assert!(!matches_at(&s, &chars("auto"), 12));
    assert!(!matches_at(&s, &chars("auto"), 100));
    assert_eq!(index_of(&s, '/', 0), 10);
    assert_eq!(index_of(&s, '/', 11), 20);
    assert_eq!(index_of(&s, 'o', 1), 5);
    assert_eq!(after_last_index(&chars("a/b/c"), '/'), 4);
    assert_eq!(after_last_index(&chars("abc"), '/'), 0);
    assert_eq!(after_last_index(&chars("abc/"), '/'), 4);
}

#[test]
fn same_compares_texts() {
    assert!(same("abc", "abc"));
    assert!(!same("abc", "abd"));
    assert!(!same("abc", "ab"));
    assert!(same("", ""));
}

#[test]
fn excerpt_takes_the_first_characters() {
    assert_eq!(excerpt("héllo wörld", 4), "héll");
    assert_eq!(excerpt("héllo", 5), "héllo");
    assert_eq!(excerpt("héllo", 50), "héllo");
    assert_eq!(excerpt("héllo", 0), "");
    assert_eq!(excerpt("", 3), "");
}
