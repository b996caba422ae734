use steam_tools::text::{
    chars_of, control, decimal_text, digit, hex_digit, hexadecimal_text, join2, join3, join5,
    keep_newest, lower_hex_char, only_digits, same_text, split_tokens, string_of, text_before,
    text_begins, text_occurs, trim, upper_hex_char, white, zero_pad,
};

#[test]
fn character_classes_agree_with_the_standard_library() {
    for code in 0..=0x10FFFFu32 {
        if let Some(c) = char::from_u32(code) {
            assert_eq!(white(c), c.is_whitespace(), "white {code:x}");
            assert_eq!(control(c), c.is_control(), "control {code:x}");
            assert_eq!(digit(c), c.is_ascii_digit(), "digit {code:x}");
            assert_eq!(hex_digit(c).map(u32::from), c.to_digit(16), "hex {code:x}");
        }
    }
}

#[test]
fn only_digits_takes_the_empty_text() {
    assert!(only_digits(""));
    assert!(only_digits("0123456789"));
    assert!(!only_digits("12 3"));
    assert!(!only_digits("-1"));
    assert!(!only_digits("\u{661}"));
}

#[test]
fn characters_and_strings_convert_back() {
    let text = "a\u{e9}\u{1f600} ";
    let chars = chars_of(text);
    assert_eq!(chars, text.chars().collect::<Vec<char>>());
    assert_eq!(string_of(&chars), text);
    assert!(same_text("abc", "abc"));
    assert!(!same_text("abc", "abd"));
}

#[test]
fn texts_are_joined_in_order() {
    assert_eq!(join2("a", "b"), "ab");
    assert_eq!(join3("a", "", "c"), "ac");
    assert_eq!(join5("1", "2", "3", "4", "5"), "12345");
}

#[test]
fn the_newest_items_are_kept() {
    let mut items = vec![1, 2, 3, 4, 5];
    keep_newest(&mut items, 3);
    assert_eq!(items, vec![3, 4, 5]);
    keep_newest(&mut items, 3);
    assert_eq!(items, vec![3, 4, 5]);
    keep_newest(&mut items, 0);
    assert!(items.is_empty());
}

#[test]
fn occurrences_agree_with_the_standard_library() {
    let texts = ["", "a", "ab", "ba", "aab", "abab", "steamui.dll", "x\u{e9}y", "\u{e9}"];
    for needle in texts {
        for hay in texts {
            assert_eq!(text_occurs(needle, hay), hay.contains(needle), "{needle} in {hay}");
            assert_eq!(text_begins(hay, needle), hay.starts_with(needle), "{hay} by {needle}");
            assert_eq!(text_before(needle, hay), needle < hay, "{needle} < {hay}");
        }
    }
}

#[test]
fn app_ids_are_ordered_as_texts() {
    assert!(text_before("10", "9"));
    assert!(text_before("1", "10"));
    assert!(!text_before("730", "730"));
    assert!(text_before("\u{ffff}", "\u{10000}"));
}

#[test]
fn trimming_agrees_with_the_standard_library() {
    let texts = ["", " ", " a ", "\t a b\u{3000}", "\u{200b}a", "\u{a0}\u{2003}730\r\n", "730"];
    for text in texts {
        assert_eq!(trim(text), text.trim());
    }
}

#[test]
fn tokens_agree_with_the_standard_library() {
    let texts = ["", "  ", "48 8B", " 48\t8B\n?? ", "a\u{2003}b", "\u{200b} x"];
    for text in texts {
        let expected: Vec<String> = text.split_whitespace().map(str::to_owned).collect();
        let tokens: Vec<String> = split_tokens(text).iter().map(|t| string_of(t)).collect();
        assert_eq!(tokens, expected);
    }
}

#[test]
fn hexadecimal_digits_are_written_in_both_cases() {
    let upper: String = (0..16u8).map(upper_hex_char).collect();
    let lower: String = (0..16u8).map(lower_hex_char).collect();
    assert_eq!(upper, "0123456789ABCDEF");
    assert_eq!(lower, "0123456789abcdef");
}

#[test]
fn numbers_are_written_as_the_standard_library_does() {
    for n in [0u64, 1, 9, 10, 59, 60, 100, 65535, 1_000_000, u64::MAX] {
        assert_eq!(decimal_text(n), format!("{n}"));
        assert_eq!(zero_pad(&decimal_text(n), 2), format!("{n:02}"));
    }
    for n in [0u32, 1, 0xF, 0x10, 0x1000, 0xC89CFA75, u32::MAX] {
        assert_eq!(hexadecimal_text(n), format!("{n:X}"));
        assert_eq!(format!("0x{}", zero_pad(&hexadecimal_text(n), 8)), format!("{n:#010X}"));
    }
}

#[test]
fn written_numbers_read_back() {
    for n in [0u64, 7, 10, 999, 12345678901234567890] {
        assert_eq!(decimal_text(n).parse::<u64>().unwrap(), n);
        assert_eq!(zero_pad(&decimal_text(n), 24).parse::<u64>().unwrap(), n);
    }
}
