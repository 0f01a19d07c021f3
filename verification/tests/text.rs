use hailsplay::text::{
    chars_of, char_is_space, decimal_i64, is_number,
    equals_str, find, parse_i64, parse_u64, rfind_char, same_text, starts_with, string_between,
    string_of, trimmed, trimmed_right,
};

fn v(s: &str) -> Vec<char> {
    s.chars().collect()
}

#[test]
fn characters_and_strings() {
    assert_eq!(chars_of("aé\u{1F600}"), vec!['a', 'é', '\u{1F600}']);
    assert_eq!(chars_of(""), Vec::<char>::new());
    assert_eq!(string_of(&v("aé\u{1F600}")), "aé\u{1F600}");
    assert_eq!(string_between(&v("hello"), 1, 3), "el");
    assert_eq!(string_between(&v("hello"), 2, 2), "");
}

#[test]
fn comparing_and_searching() {
    assert!(starts_with(&v("hello"), "he"));
    assert!(starts_with(&v("hello"), ""));
    assert!(!starts_with(&v("he"), "hello"));
    assert!(equals_str(&v("abc"), "abc"));
    assert!(!equals_str(&v("abc"), "abd"));
    assert!(!equals_str(&v("abc"), "ab"));
    assert!(same_text("é", "é"));
    assert!(!same_text("e", "é"));
    assert_eq!(find(&v("a: b: c"), ": "), Some(1));
    assert_eq!(find(&v("abc"), ": "), None);
    assert_eq!(find(&v("abc"), ""), Some(0));
    assert_eq!(find(&v(""), ""), Some(0));
    assert_eq!(find(&v("aab"), "ab"), Some(1));
    assert_eq!(rfind_char(&v("a/b/c"), '/'), Some(3));
    assert_eq!(rfind_char(&v("abc"), '/'), None);
}

#[test]
fn white_space_is_what_std_calls_white_space() {
    for n in 0..=0x10ffffu32 {
        if let Some(c) = char::from_u32(n) {
            assert_eq!(char_is_space(c), c.is_whitespace(), "U+{:04X}", n);
        }
    }
}

#[test]
fn trimming() {
    for s in ["", " ", "  a b  ", "\t\r\na\u{a0}", "\u{3000}x\u{2028}", "a", " a", "a ", "\u{feff}a"] {
        assert_eq!(string_of(&trimmed(s)), s.trim(), "{:?}", s);
        assert_eq!(string_of(&trimmed_right(s)), s.trim_end(), "{:?}", s);
    }
}

#[test]
fn reading_numbers() {
    for s in ["0", "1", "+1", "00042", "18446744073709551615", "18446744073709551616", "", "+", "-1", "1a", " 1", "٣"] {
        assert_eq!(parse_u64(&v(s)), s.parse::<u64>().ok(), "{:?}", s);
    }
    for s in [
        "0", "-0", "+0", "7", "-7", "+7", "9223372036854775807", "9223372036854775808",
        "-9223372036854775808", "-9223372036854775809", "", "+", "-", "+-1", "1-", "१",
    ] {
        assert_eq!(parse_i64(&v(s)), s.parse::<i64>().ok(), "{:?}", s);
    }
}

#[test]
fn writing_numbers() {
    for n in [0i64, 1, -1, 10, -10, 999, i64::MAX, i64::MIN, i64::MIN + 1] {
        assert_eq!(decimal_i64(n), n.to_string());
    }
}

#[test]
fn numbers_are_what_std_reads_as_numbers() {
    let alphabet: Vec<char> = "01+-.eEinfatyNIA _".chars().collect();
    let mut texts = vec![String::new()];
    let mut last = vec![String::new()];
    for _ in 0..4 {
        let mut next = Vec::new();
        for text in &last {
            for c in &alphabet {
                let mut longer = text.clone();
                longer.push(*c);
                next.push(longer);
            }
        }
        texts.extend(next.iter().cloned());
        last = next;
    }
    for text in [
        "12.345", "200.000", "0.000", "1e10", "1E-10", "1.5e+3", "1.e5", ".5e5", "infinity",
        "-Infinity", "+INFINITY", "infinit", "infinityy", "NaN", "-nan", "nane", "12:34", "1,5",
        "1.2.3", "1e5e5", "1e5.5", "0x10", "١٢", "1\u{0}", "inf ", "1e", "1e+", "+", "-", ".", "+.",
        "e5", "123456789012345678901234567890", "1e99999", "0.0000000000000000000000000001",
    ] {
        texts.push(text.to_string());
    }
    for text in &texts {
        assert_eq!(is_number(text), text.parse::<f64>().is_ok(), "{:?}", text);
    }
}
