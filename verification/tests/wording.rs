use kueueski::text::{
    chars_of, decimal_text, has_prefix, is_white_space, pad_right, parse_unsigned,
    signed_decimal_text, sorts_before, trim,
};

#[test]
fn white_space_is_what_unicode_says() {
    let mut found = 0;
    for code in 0..=0x10_ffff_u32 {
        if let Some(c) = char::from_u32(code) {
            assert_eq!(is_white_space(c), c.is_whitespace(), "{code:x}");
            if is_white_space(c) {
                found += 1;
            }
        }
    }
    assert_eq!(found, 25);
}

#[test]
fn trims_like_the_standard_library() {
    let texts = [
        "", " ", "\n", "a", " a", "a ", "  a b\n\t", "\u{3000}x\u{a0}", "\u{feff}x", "\r\n",
        "{\"ok\":true}\n",
    ];
    for text in texts {
        assert_eq!(trim(text), text.trim());
    }
    assert_eq!(trim("\n  inner text \t"), "inner text");
}

#[test]
fn writes_numbers_in_decimal() {
    assert_eq!(decimal_text(0), "0");
    assert_eq!(decimal_text(10), "10");
    assert_eq!(decimal_text(u64::MAX), "18446744073709551615");
    for i in [0, 7, -7, 255, i32::MAX, i32::MIN] {
        assert_eq!(signed_decimal_text(i), i.to_string());
    }
}

#[test]
fn reads_back_what_it_writes() {
    for n in [0, 1, 9, 10, 4_294_967_295, u64::MAX] {
        assert_eq!(parse_unsigned(&decimal_text(n), u64::MAX), Some(n));
    }
    assert_eq!(parse_unsigned("100", 99), None);
    assert_eq!(parse_unsigned("99", 99), Some(99));
    assert_eq!(parse_unsigned("7", 5), None);
}

#[test]
fn compares_texts() {
    assert!(has_prefix("redis://a", "redis://"));
    assert!(has_prefix("abc", ""));
    assert!(!has_prefix("ab", "abc"));
    assert!(!has_prefix("xbc", "ab"));
    let texts = ["", "a", "ab", "b", "B", "\u{e9}", "\u{ffff}", "\u{10000}", "a\u{0}"];
    for a in texts {
        for b in texts {
            assert_eq!(sorts_before(a, b), a <= b, "{a:?} {b:?}");
        }
    }
}

#[test]
fn pads_by_characters() {
    assert_eq!(pad_right("ab", 4), "ab  ");
    assert_eq!(pad_right("abcd", 4), "abcd");
    assert_eq!(pad_right("abcde", 4), "abcde");
    assert_eq!(pad_right("\u{e9}", 3), format!("{:<3}", "\u{e9}"));
    assert_eq!(chars_of("h\u{e9}"), vec!['h', '\u{e9}']);
}
