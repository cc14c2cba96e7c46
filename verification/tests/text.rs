use tvm_serve::text::{
    chars_of, decimal_i64, decimal_u64, first_dash_part, is_whitespace, parse_unsigned,
    render_list, same_text, split_words, strip_prefix, text_between, to_lower, trim,
};

#[test]
fn decimal_numbers_print_as_usual() {
    for n in [0u64, 1, 9, 10, 99, 100, 12345, u64::MAX] {
        assert_eq!(decimal_u64(n), n.to_string());
    }
    for n in [0i64, -1, 7, -10, i64::MAX, i64::MIN] {
        assert_eq!(decimal_i64(n), n.to_string());
    }
}

#[test]
fn lists_print_as_in_debug_output() {
    let lists: [&[i64]; 4] = [&[], &[3], &[1, 3, 640, 640], &[-1, i64::MIN]];
    for xs in lists {
        assert_eq!(render_list(xs), format!("{:?}", xs));
    }
}

#[test]
fn white_space_is_that_of_unicode() {
    for code in 0..=0x10ffffu32 {
        if let Some(c) = char::from_u32(code) {
            assert_eq!(is_whitespace(c), c.is_whitespace(), "{:x}", code);
        }
    }
}

#[test]
fn trimming_drops_white_space_at_both_ends() {
    for s in ["", " ", "a", " a", "a ", "\t a b \u{a0}", "\u{2003}x\u{2029}", "a\u{200b}"] {
        assert_eq!(trim(s), s.trim());
    }
}

#[test]
fn words_are_separated_by_white_space() {
    for s in ["", "  ", "a", " a  b\tc\n", "llvm -mcpu=x\u{3000}y", "a\u{200b}b"] {
        let expected: Vec<String> = s.split_whitespace().map(|w| w.to_string()).collect();
        assert_eq!(split_words(s), expected);
    }
}

#[test]
fn prefixes_are_stripped_once() {
    assert_eq!(strip_prefix("-mtriple=arm", "-mtriple="), Some("arm".to_string()));
    assert_eq!(strip_prefix("-mtriple", "-mtriple="), None);
    assert_eq!(strip_prefix("aa", "a"), Some("a".to_string()));
    assert_eq!(strip_prefix("a", ""), Some("a".to_string()));
}

#[test]
fn the_part_before_the_first_dash_is_kept() {
    for s in ["", "-", "arm", "x86_64-pc-linux-gnu", "-a"] {
        assert_eq!(first_dash_part(s), s.split('-').next().unwrap());
    }
}

#[test]
fn only_ascii_letters_change_case() {
    for s in ["", "ARMv7", "\u{c4}\u{212a}Z", "az@[`{"] {
        assert_eq!(to_lower(s), s.to_ascii_lowercase());
    }
}

#[test]
fn unsigned_numbers_parse_as_in_std() {
    for s in ["", "+", "-", "0", "-0", "+0", "007", "65535", "65536", "+65535", " 1", "1 ", "1_0",
        "99999999999999999999999", "\u{661}"]
    {
        assert_eq!(parse_unsigned(s, 65535), s.parse::<u16>().ok().map(|n| n as u64), "{}", s);
    }
    for s in ["18446744073709551615", "18446744073709551616", "0"] {
        assert_eq!(parse_unsigned(s, u64::MAX), s.parse::<u64>().ok());
    }
}

#[test]
fn texts_compare_by_characters() {
    assert!(same_text("", ""));
    assert!(same_text("a\u{e9}", "a\u{e9}"));
    assert!(!same_text("a", "ab"));
    assert!(!same_text("ab", "a"));
    assert!(!same_text("a", "b"));
    let cs = chars_of("h\u{e9}llo");
    assert_eq!(cs.len(), 5);
    assert_eq!(text_between(&cs, 1, 3), "\u{e9}l");
}
