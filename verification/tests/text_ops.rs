use tiny_researcher::text::{
    chars_of, contains_exec, count_matches_exec, decimal_string, join_strings, take_chars, trim_bounds, utf8_len_exec,
    utf8_width_exec, white_space,
};

#[test]
fn white_space_agrees_with_char_is_whitespace_everywhere() {
    for code in 0u32..=0x10FFFF {
        if let Some(c) = char::from_u32(code) {
            assert_eq!(white_space(c), c.is_whitespace(), "U+{:04X}", code);
        }
    }
}

#[test]
fn utf8_width_agrees_with_len_utf8_everywhere() {
    for code in 0u32..=0x10FFFF {
        if let Some(c) = char::from_u32(code) {
            assert_eq!(utf8_width_exec(c), c.len_utf8() as u128, "U+{:04X}", code);
        }
    }
}

#[test]
fn trimming_counting_and_lengths_agree_with_str() {
    let samples = [
        "", " ", "  a b  ", "\t\u{3000}x\u{85}", "abc", "ababab", "aaaa", "é ü ß", " \u{2028}mid\u{a0} ",
    ];
    for s in samples {
        let cs = chars_of(s);
        assert_eq!(cs, s.chars().collect::<Vec<_>>());
        let (a, b) = trim_bounds(&cs);
        assert_eq!(cs[a..b].iter().collect::<String>(), s.trim());
        assert_eq!(utf8_len_exec(&cs), s.len() as u128);
        for needle in ["", "a", "ab", "aa", "b b", "é", "zz"] {
            let nc = chars_of(needle);
            assert_eq!(count_matches_exec(&cs, &nc), s.matches(needle).count() as u128, "{:?} in {:?}", needle, s);
            assert_eq!(contains_exec(&cs, &nc), s.contains(needle));
        }
        for n in [0usize, 1, 3, 100] {
            assert_eq!(take_chars(s, n), s.chars().take(n).collect::<String>());
        }
    }
}

#[test]
fn decimals_and_joins_agree_with_std() {
    for n in [0u128, 7, 10, 42, 999, 1000, 18446744073709551615, u128::MAX] {
        assert_eq!(decimal_string(n), n.to_string());
    }
    let parts: Vec<String> = vec!["a".into(), "".into(), "c".into()];
    assert_eq!(join_strings(&parts, "\n---\n"), parts.join("\n---\n"));
    assert_eq!(join_strings(&vec![], ","), "");
    assert_eq!(join_strings(&vec!["x".to_string()], ","), "x");
}
