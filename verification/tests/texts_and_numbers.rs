use vpnman::number::{integer_text, natural_text, parse_i64};
use vpnman::order::comes_before;
use vpnman::string_map::StringMap;
use vpnman::text::{
    chars_of, fill, has_char, has_prefix, has_suffix, is_ascii_alphanumeric, is_blank,
    is_white_space, join, replace, same_text, slice_text, split_text, text_of, to_lower,
    to_lower_char, trim, trim_end_char, without_prefix,
};

fn strings(items: &[&str]) -> Vec<String> {
    items.iter().map(|s| s.to_string()).collect()
}

#[test]
fn white_space_is_that_of_the_standard_library() {
    for n in 0..=0x10ffffu32 {
        if let Some(c) = char::from_u32(n) {
            assert_eq!(is_white_space(c), c.is_whitespace(), "{n:x}");
        }
    }
}

#[test]
fn ascii_classes_are_those_of_the_standard_library() {
    for n in 0..=0x2ffu32 {
        if let Some(c) = char::from_u32(n) {
            assert_eq!(is_ascii_alphanumeric(c), c.is_ascii_alphanumeric());
            assert_eq!(to_lower_char(c), c.to_ascii_lowercase());
        }
    }
}

#[test]
fn trimming() {
    assert_eq!(trim("  a b \t\n"), "a b");
    assert_eq!(trim("\u{3000}x\u{a0}"), "x");
    assert_eq!(trim(" \n "), "");
    assert_eq!(trim(""), "");
    assert_eq!(trim(&trim("  twice ")), "twice");
}

#[test]
fn blank_texts() {
    assert!(is_blank(""));
    assert!(is_blank(" \t\u{2003}"));
    assert!(!is_blank(" . "));
}

#[test]
fn lowering_touches_ascii_only() {
    assert_eq!(to_lower("AbZ-Ä"), "abz-Ä");
}

#[test]
fn beginnings_and_ends() {
    assert!(has_prefix("/vpnman/api/x", "/vpnman/api/"));
    assert!(!has_prefix("/vpn", "/vpnman"));
    assert!(has_prefix("a", ""));
    assert!(has_suffix("server_port", "port"));
    assert!(!has_suffix("ort", "port"));
    assert_eq!(without_prefix("var_name", "var_"), Some("name".to_string()));
    assert_eq!(without_prefix("var_", "var_"), Some(String::new()));
    assert_eq!(without_prefix("xvar_", "var_"), None);
    assert_eq!(trim_end_char("http://h//", '/'), "http://h");
    assert_eq!(trim_end_char("//", '/'), "");
    assert!(has_char("a\rb", '\r'));
    assert!(!has_char("ab", '\r'));
}

#[test]
fn characters_and_back() {
    let cs = chars_of("aé€𝄞");
    assert_eq!(cs.len(), 4);
    assert_eq!(text_of(&cs), "aé€𝄞");
    assert_eq!(slice_text(&cs, 1, 3), "é€");
    assert!(same_text("é", "é"));
    assert!(!same_text("e", "é"));
    assert!(!same_text("e", "ee"));
}

#[test]
fn splitting_is_that_of_the_standard_library() {
    for s in ["", ",", "a,b", "a,,b,", ",a", "é,€"] {
        let expected: Vec<String> = s.split(',').map(|p| p.to_string()).collect();
        assert_eq!(split_text(s, ','), expected);
    }
}

#[test]
fn joining_and_splitting_undo_each_other() {
    let parts = strings(&["a", "", "b c"]);
    assert_eq!(join(&parts, ","), "a,,b c");
    assert_eq!(split_text(&join(&parts, ","), ','), parts);
    assert_eq!(join(&Vec::new(), ", "), "");
    assert_eq!(join(&strings(&["x"]), ", "), "x");
}

#[test]
fn replacing_is_that_of_the_standard_library() {
    let cases = [
        ("aaa", "aa", "b"),
        ("%a%b%a%", "%a%", "x"),
        ("none", "%a%", "x"),
        ("abab", "ab", ""),
        ("abc", "", "-"),
        ("", "", "-"),
        ("é€é", "é", "€€"),
    ];
    for (s, from, to) in cases {
        assert_eq!(replace(s, from, to), s.replace(from, to));
    }
}

#[test]
fn filling_patterns() {
    assert_eq!(fill("<{}:{}>", &strings(&["a", "b"])), "<a:b>");
    assert_eq!(fill("{}{}", &strings(&["{}", "x"])), "{}x");
    assert_eq!(fill("{}-{}", &strings(&["only"])), "only-{}");
    assert_eq!(fill("{", &Vec::new()), "{");
}

#[test]
fn numbers_are_written_as_by_the_standard_library() {
    for n in [0u128, 7, 10, 99, 100, 7300, 65535, u64::MAX as u128, u128::MAX] {
        assert_eq!(natural_text(n), n.to_string());
    }
    for n in [0i64, -1, 42, -1194, i64::MIN, i64::MAX] {
        assert_eq!(integer_text(n), n.to_string());
    }
}

#[test]
fn numbers_are_read_as_by_the_standard_library() {
    let cases = [
        "0", "-0", "+0", "007", "1194", "-5", "+5", "", "-", "+", " 1", "1 ", "1.0", "0x1", "é",
        "9223372036854775807", "9223372036854775808", "-9223372036854775808",
        "-9223372036854775809", "00000000000000000000000000000000001",
        "99999999999999999999999999999999999999",
    ];
    for s in cases {
        assert_eq!(parse_i64(s), s.parse::<i64>().ok(), "{s}");
    }
}

#[test]
fn numbers_are_read_back_as_they_were_written() {
    for n in [0i64, 1, -1, 65535, i64::MIN, i64::MAX, 1_000_000_007] {
        assert_eq!(parse_i64(&integer_text(n)), Some(n));
    }
}

#[test]
fn the_order_is_that_of_the_standard_library() {
    let items = ["", "a", "B", "aa", "ab", "b", "é", "z", "_x", "\u{10000}", "\u{ffff}"];
    for a in items {
        for b in items {
            assert_eq!(comes_before(a, b), a < b, "{a:?} {b:?}");
        }
    }
}

#[test]
fn maps_keep_their_keys_in_order() {
    let mut m: StringMap<String> = StringMap::new();
    assert!(m.is_empty());
    m.insert("b".to_string(), "1".to_string());
    m.insert("a".to_string(), "2".to_string());
    m.insert("c".to_string(), "3".to_string());
    m.insert("b".to_string(), "4".to_string());
    assert_eq!(m.len(), 3);
    assert!(!m.is_empty());
    assert_eq!(m.key_at(0), "a");
    assert_eq!(m.key_at(1), "b");
    assert_eq!(m.key_at(2), "c");
    assert_eq!(m.value_at(1), "4");
    assert_eq!(m.get("c"), Some(&"3".to_string()));
    assert_eq!(m.get("d"), None);
}
