use rust_audio::text::{
    char_is_space, chars_of, contains, decimal_string, digit_of, push_decimal, push_digits,
    same_text, string_of, to_lower_char, to_lowercase,
};

#[test]
fn decimal_string_spells_signed_numbers() {
    assert_eq!(decimal_string(0), "0");
    assert_eq!(decimal_string(7), "7");
    assert_eq!(decimal_string(10), "10");
    assert_eq!(decimal_string(-3), "-3");
    assert_eq!(decimal_string(2147483647), "2147483647");
    assert_eq!(decimal_string(-2147483648), "-2147483648");
    assert_eq!(decimal_string(i64::MAX), "9223372036854775807");
    assert_eq!(decimal_string(i64::MIN), "-9223372036854775808");
}

#[test]
fn push_digits_and_push_decimal_append() {
    let mut s = String::from("n=");
    push_digits(&mut s, 1204);
    s.push(';');
    push_decimal(&mut s, -15);
    assert_eq!(s, "n=1204;-15");
    let mut t = String::new();
    push_digits(&mut t, u128::MAX);
    assert_eq!(t, "340282366920938463463374607431768211455");
    assert_eq!(digit_of(0), '0');
    assert_eq!(digit_of(9), '9');
}

#[test]
fn to_lowercase_folds_ascii_only() {
    assert_eq!(to_lowercase("MP3"), "mp3");
    assert_eq!(to_lowercase("AzÄz[@`{"), "azÄz[@`{");
    assert_eq!(to_lowercase(""), "");
    assert_eq!(to_lower_char('Z'), 'z');
    assert_eq!(to_lower_char('A'), 'a');
    assert_eq!(to_lower_char('é'), 'é');
}

#[test]
fn chars_and_strings_round_trip() {
    let v = chars_of("héllo");
    assert_eq!(v, vec!['h', 'é', 'l', 'l', 'o']);
    assert_eq!(string_of(&v, 1, 4), "éll");
    assert_eq!(string_of(&v, 2, 2), "");
    assert_eq!(string_of(&v, 0, 5), "héllo");
}

#[test]
fn same_text_compares_characters() {
    assert!(same_text("keep", "keep"));
    assert!(!same_text("keep", "Keep"));
    assert!(!same_text("keep", "keeps"));
    assert!(same_text("", ""));
}

#[test]
fn white_space_is_what_unicode_says() {
    for c in ['\u{0}', ' ', '\t', '\n', '\u{0B}', '\u{0C}', '\r', '\u{85}', '\u{A0}', '\u{1680}',
        '\u{2000}', '\u{200A}', '\u{200B}', '\u{2028}', '\u{2029}', '\u{202F}', '\u{205F}',
        '\u{3000}', 'a', '_', '\u{1F}', '\u{0E}', '\u{08}']
    {
        assert_eq!(char_is_space(c), c.is_whitespace(), "{:?}", c);
    }
}

#[test]
fn contains_finds_a_text_inside_another() {
    assert!(contains("abcabd", "abd"));
    assert!(contains("abcabd", "abc"));
    assert!(contains("abcabd", ""));
    assert!(contains("", ""));
    assert!(contains("x", "x"));
    assert!(!contains("abcabd", "abe"));
    assert!(!contains("ab", "abc"));
    assert!(!contains("", "a"));
    assert!(contains("aaab", "aab"));
    for (hay, needle) in [("héllo wörld", "o w"), ("héllo", "hé"), ("héllo", "llo"), ("abc", "cb")] {
        assert_eq!(contains(hay, needle), hay.contains(needle), "{hay} {needle}");
    }
}
