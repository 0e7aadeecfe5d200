use slatedb_wal_bench::text::{
    chars_of, contains_char, find_char, is_white_space, parse_u64, push_decimal, push_padded,
    same_text, text_of, to_ascii_lower, trim_range,
};

#[test]
fn white_space_is_that_of_std() {
    for code in 0..=0x10ffff_u32 {
        if let Some(c) = char::from_u32(code) {
            assert_eq!(is_white_space(c), c.is_whitespace(), "{code:x}");
        }
    }
}

#[test]
fn trimming_is_that_of_std() {
    for s in ["", " ", "a", " a", "a ", "\t a b \r", "\u{3000}\u{fc}\u{a0}", "\u{200b}x"] {
        let chars = chars_of(s);
        let (from, to) = trim_range(&chars, 0, chars.len());
        let trimmed = text_of(&chars, from, to);
        assert_eq!(trimmed, s.trim());
        let again = chars_of(&trimmed);
        assert_eq!(trim_range(&again, 0, again.len()), (0, again.len()));
    }
    let chars = chars_of("ab  cd");
    assert_eq!(trim_range(&chars, 1, 4), (1, 2));
}

#[test]
fn characters_are_found() {
    let chars = chars_of("k=v=w");
    assert_eq!(find_char(&chars, 0, 5, '='), 1);
    assert_eq!(find_char(&chars, 2, 5, '='), 3);
    assert_eq!(find_char(&chars, 2, 3, '='), 3);
    assert!(contains_char("a\0b", '\0'));
    assert!(!contains_char("ab", '\0'));
    assert!(!contains_char("", 'x'));
}

#[test]
fn texts_are_compared_by_their_characters() {
    assert!(same_text("", ""));
    assert!(same_text("\u{fc}ber", "\u{fc}ber"));
    assert!(!same_text("\u{fc}", "u\u{308}"));
    assert!(!same_text("kafka", "kafka "));
    assert!(!same_text("kafka", "Kafka"));
}

#[test]
fn integers_are_read_as_std_reads_them() {
    for s in [
        "",
        "+",
        "-",
        "0",
        "-0",
        "+0",
        "00",
        "007",
        "60",
        "+60",
        "++6",
        "6+",
        " 6",
        "6 ",
        "6_0",
        "6.0",
        "0x10",
        "1e3",
        "\u{0663}",
        "18446744073709551614",
        "18446744073709551615",
        "18446744073709551616",
        "18446744073709551620",
        "99999999999999999999",
        "00000000000000000000000000018446744073709551615",
        "184467440737095516150",
    ] {
        assert_eq!(parse_u64(s), s.parse::<u64>().ok(), "{s:?}");
    }
}

#[test]
fn numbers_read_back() {
    for n in [0, 1, 9, 10, 99, 100, 12_345, u64::MAX - 1, u64::MAX] {
        let mut text = String::new();
        push_decimal(&mut text, n);
        assert_eq!(text, n.to_string());
        assert_eq!(parse_u64(&text), Some(n));
    }
}

#[test]
fn padded_numbers_have_their_width() {
    for n in [0, 7, 42, u64::MAX] {
        let mut text = "id-".to_string();
        push_padded(&mut text, n, 20);
        assert_eq!(text, format!("id-{n:020}"));
    }
    let mut text = String::new();
    push_padded(&mut text, 1234, 2);
    assert_eq!(text, "34");
    push_padded(&mut text, 1234, 0);
    assert_eq!(text, "34");
}

#[test]
fn only_ascii_letters_are_lowered() {
    for s in ["", "ABC", "aZ09", "\u{c4}B", "[@`{"] {
        assert_eq!(to_ascii_lower(s), s.to_ascii_lowercase());
    }
}
