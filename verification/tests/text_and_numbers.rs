use agent_control::json::{json_array, json_string};
use agent_control::numbers::{decimal_text, hex16_text, parse_hex16_chars, parse_unsigned_chars};
use agent_control::percent::decode_or_empty;
use agent_control::text::{split_char, split_lines, split_words, splitn_char, strip_all_prefix_text, trim};

fn chars(s: &str) -> Vec<char> {
    s.chars().collect()
}

fn texts(v: Vec<Vec<char>>) -> Vec<String> {
    v.into_iter().map(|c| c.into_iter().collect()).collect()
}

#[test]
fn decimal_numerals() {
    for n in [0u128, 7, 10, 99, 100, 65535, u64::MAX as u128, u128::MAX] {
        assert_eq!(decimal_text(n), n.to_string());
    }
}

#[test]
fn unsigned_parsing_like_str_parse() {
    for s in ["0", "42", "+42", "", "+", "-1", "4a", "007", "18446744073709551615", "18446744073709551616", " 1"] {
        let expected = s.parse::<u64>().ok();
        assert_eq!(parse_unsigned_chars(&chars(s), u64::MAX), expected, "{s:?}");
    }
    for s in ["4294967295", "4294967296", "+0"] {
        let expected = s.parse::<u32>().ok().map(|v| v as u64);
        assert_eq!(parse_unsigned_chars(&chars(s), u32::MAX as u64), expected, "{s:?}");
    }
}

#[test]
fn hex_identifiers_roundtrip() {
    for n in [0u64, 1, 0xabcdef, u64::MAX] {
        let t = hex16_text(n);
        assert_eq!(t, format!("{:016x}", n));
        assert_eq!(parse_hex16_chars(&chars(&t)), Some(n));
    }
    assert_eq!(parse_hex16_chars(&chars("000000000000000G")), None);
    assert_eq!(parse_hex16_chars(&chars("0000000000000000f")), None);
    assert_eq!(parse_hex16_chars(&chars("ABCDEF0000000000")), None);
}

#[test]
fn trimming_and_words() {
    assert_eq!(trim(&chars(" \t a b \u{3000}\n")), chars("a b"));
    assert_eq!(trim(&chars("   ")), chars(""));
    let s = "  GET\u{a0}/x\t HTTP/1.1 ";
    let expected: Vec<String> = s.split_whitespace().map(|w| w.to_string()).collect();
    assert_eq!(texts(split_words(&chars(s))), expected);
}

#[test]
fn splitting_like_str() {
    for s in ["a&b", "", "&", "a&&b&", "abc"] {
        let expected: Vec<String> = s.split('&').map(|p| p.to_string()).collect();
        assert_eq!(texts(split_char(&chars(s), '&')), expected, "{s:?}");
    }
    for s in ["a/b/c/d", "a", "", "/", "a//b"] {
        let expected: Vec<String> = s.splitn(3, '/').map(|p| p.to_string()).collect();
        assert_eq!(texts(splitn_char(&chars(s), '/', 3)), expected, "{s:?}");
    }
    for s in ["a\r\nb", "a\n", "", "\n", "a\rb\r", "x\r\n\r\ny", "a\r"] {
        let expected: Vec<String> = s.lines().map(|p| p.to_string()).collect();
        assert_eq!(texts(split_lines(&chars(s))), expected, "{s:?}");
    }
}

#[test]
fn prefix_stripping_like_trim_start_matches() {
    for s in ["/get/title", "/get//get/x", "/get/", "get/", "/get/get/"] {
        let expected: String = s.trim_start_matches("/get/").to_string();
        let got: String = strip_all_prefix_text(&chars(s), "/get/").into_iter().collect();
        assert_eq!(got, expected, "{s:?}");
    }
}

#[test]
fn json_strings_and_arrays() {
    for s in ["plain", "q\"b\\", "\u{0}\u{7}\u{8}\u{c}\u{1f}\u{7f}", "tab\tnl\ncr\r", "\u{e9}\u{1F600}"] {
        assert_eq!(json_string(s), serde_json::to_string(s).unwrap());
    }
    let v = vec!["a".to_string(), "b\"".to_string()];
    assert_eq!(json_array(&v), "[\"a\",\"b\\\"\"]");
    assert_eq!(json_array(&vec![]), "[]");
}

#[test]
fn percent_decoding() {
    let d = |s: &str| -> String { decode_or_empty(&chars(s)).into_iter().collect() };
    assert_eq!(d("a%20b"), "a b");
    assert_eq!(d("100%"), "100%");
    assert_eq!(d("%4a%4A"), "JJ");
    assert_eq!(d("%e2%9c%93"), "\u{2713}");
    assert_eq!(d("%ff"), "");
    assert_eq!(d("a+b"), "a+b");
    assert_eq!(d("%%41"), "%A");
}
