use rgs::bytes::{compare_bytes, Comparison};
use rgs::text::{hex_string, parse_u64};
use rgs::value::{string_rules, StrMap, Value};

#[test]
fn hex_string_is_lowercase_two_digits_per_byte() {
    assert_eq!(hex_string(&[0x4d, 0x47, 0x03, 0x05]), "4d470305");
    assert_eq!(hex_string(&[0x00, 0xff, 0x0a]), "00ff0a");
    assert_eq!(hex_string(&[]), "");
}

#[test]
fn parse_u64_matches_from_str() {
    for s in [
        "0", "16", "+16", "007", "18446744073709551615", "18446744073709551616", "", "+", "-1",
        "1 ", " 1", "12a", "lots", "++1",
    ] {
        assert_eq!(parse_u64(s), s.parse::<u64>().ok(), "input {s:?}");
    }
}

#[test]
fn compare_bytes_is_lexicographic() {
    assert!(matches!(compare_bytes(b"abc", b"abd"), Comparison::Less));
    assert!(matches!(compare_bytes(b"ab", b"abc"), Comparison::Less));
    assert!(matches!(compare_bytes(b"abc", b"abc"), Comparison::Equal));
    assert!(matches!(compare_bytes(b"b", b"abc"), Comparison::Greater));
    assert!(matches!(compare_bytes(b"", b""), Comparison::Equal));
}

#[test]
fn str_map_keeps_keys_sorted_and_unique() {
    let mut m = StrMap::new();
    assert_eq!(m.insert("b".to_string(), 2), None);
    assert_eq!(m.insert("a".to_string(), 1), None);
    assert_eq!(m.insert("c".to_string(), 3), None);
    assert_eq!(m.insert("b".to_string(), 20), Some(2));
    assert_eq!(m.len(), 3);
    let keys: Vec<&str> = m.entries().iter().map(|(k, _)| k.as_str()).collect();
    assert_eq!(keys, vec!["a", "b", "c"]);
    assert_eq!(m.get("b"), Some(&20));
    assert!(m.contains_key("a"));
    assert!(!m.contains_key("d"));
    assert_eq!(m.remove("a"), Some(1));
    assert_eq!(m.remove("a"), None);
    assert_eq!(m.len(), 2);
    assert_eq!(m.get("a"), None);
}

#[test]
fn str_maps_with_same_contents_are_equal() {
    let mut a = StrMap::new();
    a.insert("x".to_string(), 1);
    a.insert("y".to_string(), 2);
    let mut b = StrMap::new();
    b.insert("y".to_string(), 2);
    b.insert("x".to_string(), 1);
    assert_eq!(a, b);
    assert_eq!(a.clone(), b);
}

#[test]
fn str_map_orders_by_utf8_bytes() {
    let mut m = StrMap::new();
    m.insert("é".to_string(), 1);
    m.insert("z".to_string(), 2);
    m.insert("Z".to_string(), 3);
    let keys: Vec<&str> = m.entries().iter().map(|(k, _)| k.as_str()).collect();
    assert_eq!(keys, vec!["Z", "z", "é"]);
}

#[test]
fn string_rules_wraps_each_value() {
    let mut m = StrMap::new();
    m.insert("custom_rule".to_string(), "42".to_string());
    m.insert("other".to_string(), "x".to_string());
    let r = string_rules(&m);
    assert_eq!(r.len(), 2);
    assert_eq!(r.get("custom_rule"), Some(&Value::Str("42".to_string())));
    assert_eq!(r.get("other"), Some(&Value::Str("x".to_string())));
}
