use consair::numeric::{is_decimal_float, parse_i64, NumericType};
use consair::text::{
    char_count_in_bytes, char_utf8_width, chars_of, hex_digit_value, is_ascii_hexdigit,
    is_whitespace, push_decimal, push_seq, str_contains, str_eq, string_from_chars,
    utf8_length,
};

fn chars(s: &str) -> Vec<char> {
    s.chars().collect()
}

fn i64_of(s: &str) -> Option<i64> {
    let v = chars(s);
    parse_i64(&v, 0, v.len())
}

fn float_syntax(s: &str) -> bool {
    let v = chars(s);
    is_decimal_float(&v, 0, v.len())
}

// ---------------------------------------------------------------------------
// Numbers
// ---------------------------------------------------------------------------

#[test]
fn ratios_are_reduced() {
    assert_eq!(NumericType::make_ratio(6, 4), Ok(NumericType::Ratio(3, 2)));
    assert_eq!(NumericType::make_ratio(-6, 4), Ok(NumericType::Ratio(-3, 2)));
    assert_eq!(NumericType::make_ratio(6, -4), Ok(NumericType::Ratio(-3, 2)));
    assert_eq!(NumericType::make_ratio(-6, -4), Ok(NumericType::Ratio(3, 2)));
    assert_eq!(NumericType::make_ratio(8, 4), Ok(NumericType::Int(2)));
    assert_eq!(NumericType::make_ratio(0, 5), Ok(NumericType::Int(0)));
    assert_eq!(NumericType::make_ratio(1, 0), Err("Division by zero".to_string()));
    assert_eq!(NumericType::make_ratio(i64::MIN, -1), Err("Ratio overflow".to_string()));
    assert_eq!(NumericType::make_ratio(1, i64::MIN), Err("Ratio overflow".to_string()));
    assert_eq!(NumericType::make_ratio(i64::MIN, 2), Ok(NumericType::Int(i64::MIN / 2)));
}

#[test]
fn parses_i64_like_std() {
    for s in ["0", "42", "-17", "+5", "007", "9223372036854775807", "-9223372036854775808",
              "9223372036854775808", "-9223372036854775809", "", "-", "+", "1a", " 1", "--1", "1.0"] {
        assert_eq!(i64_of(s), s.parse::<i64>().ok(), "{s:?}");
    }
    let v = chars("x123y");
    assert_eq!(parse_i64(&v, 1, 4), Some(123));
}

#[test]
fn decimal_float_syntax() {
    for s in ["3.14", "-0.5", "1e3", "2.5E-2", "1.", "1.e5", "+1.5", "12e+3"] {
        assert!(float_syntax(s), "{s:?}");
        assert!(s.parse::<f64>().is_ok(), "{s:?}");
    }
    for s in ["1e", "1e+", "1.2.3", "e5", ".", "-", "1x"] {
        assert!(!float_syntax(s), "{s:?}");
    }
}

// ---------------------------------------------------------------------------
// Characters and strings
// ---------------------------------------------------------------------------

#[test]
fn whitespace_agrees_with_std() {
    for v in 0u32..0x11_0000 {
        if let Some(c) = char::from_u32(v) {
            assert_eq!(is_whitespace(c), c.is_whitespace(), "U+{v:04X}");
        }
    }
}

#[test]
fn hex_digits() {
    for c in ['0', '9', 'a', 'f', 'A', 'F'] {
        assert!(is_ascii_hexdigit(c));
        assert_eq!(hex_digit_value(c), c.to_digit(16).unwrap());
    }
    for c in ['g', 'G', ' ', 'z', '\u{ff10}'] {
        assert!(!is_ascii_hexdigit(c));
    }
}

#[test]
fn utf8_counts() {
    assert_eq!(char_utf8_width('a'), 1);
    assert_eq!(char_utf8_width('\u{e9}'), 2);
    assert_eq!(char_utf8_width('\u{20AC}'), 3);
    assert_eq!(char_utf8_width('\u{1F600}'), 4);
    let s = "a\u{e9}\u{20AC}\u{1F600}";
    assert_eq!(utf8_length(&chars(s)), s.len() as u128);
    let v = chars(s);
    assert_eq!(char_count_in_bytes(&v, 0), Some(0));
    assert_eq!(char_count_in_bytes(&v, 1), Some(1));
    assert_eq!(char_count_in_bytes(&v, 2), None);
    assert_eq!(char_count_in_bytes(&v, 3), Some(2));
    assert_eq!(char_count_in_bytes(&v, 6), Some(3));
    assert_eq!(char_count_in_bytes(&v, 10), Some(4));
    assert_eq!(char_count_in_bytes(&v, 11), None);
}

#[test]
fn string_helpers() {
    assert_eq!(chars_of("h\u{e9}!"), vec!['h', '\u{e9}', '!']);
    let v = chars("hello");
    assert_eq!(string_from_chars(&v, 1, 4), "ell");
    let mut s = String::from(">");
    push_seq(&mut s, &v);
    assert_eq!(s, ">hello");
    let mut n = String::new();
    push_decimal(&mut n, 0);
    push_decimal(&mut n, 1234567890);
    push_decimal(&mut n, u64::MAX);
    assert_eq!(n, format!("01234567890{}", u64::MAX));
    assert!(str_eq("abc", "abc"));
    assert!(!str_eq("abc", "abd"));
    assert!(str_contains("Unexpected end of input", "end of input"));
    assert!(str_contains("abc", ""));
    assert!(!str_contains("end of inpu", "end of input"));
    assert!(!str_contains("", "a"));
}
