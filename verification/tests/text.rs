use handy_core::text::{
    chars_of, is_blank, lower_slice, parse_i32, parse_u32, push_decimal, push_signed_decimal,
    replace_slice, string_of, strip_prefix_slice, strip_suffix_slice, trim_slice,
};

fn trimmed(s: &str) -> String {
    string_of(trim_slice(&chars_of(s)))
}

fn replaced(s: &str, from: &str, to: &str) -> String {
    string_of(&replace_slice(&chars_of(s), &chars_of(from), &chars_of(to)))
}

#[test]
fn white_space_is_that_of_the_standard_library() {
    for code in 0..=0x10ffff_u32 {
        if let Some(c) = char::from_u32(code) {
            let s = c.to_string();
            assert_eq!(is_blank(&s), c.is_whitespace(), "U+{:04X}", code);
        }
    }
    assert!(is_blank(""));
}

#[test]
fn trims_like_the_standard_library() {
    for s in ["", " ", " a ", "\t a b\u{3000}\n", "a", "\u{200B}a\u{200B}", "\u{85}x"] {
        assert_eq!(trimmed(s), s.trim());
    }
}

#[test]
fn lowers_ascii_letters_only() {
    let s = "AbZ\u{c4}\u{e9}[@09";
    assert_eq!(string_of(&lower_slice(&chars_of(s))), s.to_ascii_lowercase());
}

#[test]
fn replaces_like_the_standard_library() {
    for (s, from, to) in [
        ("a${output}b${output}", "${output}", "x"),
        ("aaa", "aa", "b"),
        ("abc", "d", "e"),
        ("", "a", "b"),
        ("aXbX", "X", ""),
        ("ababab", "abab", "ab"),
    ] {
        assert_eq!(replaced(s, from, to), s.replace(from, to));
    }
}

#[test]
fn strips_prefixes_and_suffixes() {
    let s = chars_of("left shift");
    assert_eq!(
        strip_prefix_slice(&s, "left ").map(string_of),
        Some("shift".to_string())
    );
    assert!(strip_prefix_slice(&s, "right ").is_none());
    assert_eq!(
        strip_suffix_slice(&s, " shift").map(string_of),
        Some("left".to_string())
    );
    assert!(strip_suffix_slice(&s, " left").is_none());
    assert!(strip_prefix_slice(&chars_of("le"), "left ").is_none());
}

#[test]
fn reads_numbers_like_the_standard_library() {
    for s in [
        "", "+", "-", "0", "-0", "+0", "7", "+7", "-7", "007", "4294967295", "4294967296",
        "99999999999999999999999", "2147483647", "2147483648", "-2147483648", "-2147483649",
        "+2147483647", "1 ", " 1", "1a", "--1", "+-1", "\u{661}", "0000000000000000000000009",
    ] {
        let chars = chars_of(s);
        assert_eq!(parse_u32(&chars), s.parse::<u32>().ok(), "{:?}", s);
        assert_eq!(parse_i32(&chars), s.parse::<i32>().ok(), "{:?}", s);
    }
}

#[test]
fn writes_numbers_like_the_standard_library() {
    for n in [0, 1, 9, 10, 99, 100, 1_234_567_890_123, u64::MAX] {
        let mut s = "n".to_string();
        push_decimal(&mut s, n);
        assert_eq!(s, format!("n{}", n));
    }
    for n in [0, 1, -1, 10, -10, i64::MAX, i64::MIN] {
        let mut s = String::new();
        push_signed_decimal(&mut s, n);
        assert_eq!(s, n.to_string());
    }
}
