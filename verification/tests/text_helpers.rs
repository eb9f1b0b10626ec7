use g13_nexus::text::{
    chars_of, decimal_chars, dedup_strings, is_whitespace, parse_unsigned_chars, sort_by_lower,
    sort_distinct, sorted_set, starts_with, str_less, string_of, trim_chars,
};
use g13_nexus::strmap::StrMap;

fn s(x: &str) -> String {
    x.to_string()
}

#[test]
fn trimming_uses_unicode_whitespace() {
    assert_eq!(string_of(&trim_chars(&chars_of("\u{3000} a b \u{85}\t"))), "a b");
    assert!(is_whitespace('\u{a0}'));
    assert!(!is_whitespace('x'));
}

#[test]
fn decimal_round_trip() {
    assert_eq!(string_of(&decimal_chars(0)), "0");
    assert_eq!(string_of(&decimal_chars(1907)), "1907");
    assert_eq!(parse_unsigned_chars(&chars_of("1907"), 65535), Some(1907));
    assert_eq!(parse_unsigned_chars(&chars_of("+12"), 255), Some(12));
    assert_eq!(parse_unsigned_chars(&chars_of("256"), 255), None);
    assert_eq!(parse_unsigned_chars(&chars_of(""), 255), None);
    assert_eq!(parse_unsigned_chars(&chars_of("-1"), 255), None);
    assert_eq!(parse_unsigned_chars(&chars_of("007"), 255), Some(7));
}

#[test]
fn string_order_and_sets() {
    assert!(str_less(&chars_of("G10"), &chars_of("G2")));
    assert!(str_less(&chars_of("ab"), &chars_of("abc")));
    assert!(!str_less(&chars_of("b"), &chars_of("b")));
    assert_eq!(sort_distinct(&vec![s("c"), s("a"), s("b")]), vec![s("a"), s("b"), s("c")]);
    assert_eq!(dedup_strings(&vec![s("x"), s("y"), s("x")]), vec![s("x"), s("y")]);
    assert_eq!(sorted_set(&vec![s("y"), s("x"), s("y")]), vec![s("x"), s("y")]);
    assert_eq!(sort_by_lower(&vec![s("b"), s("B"), s("a"), s("A")]), vec![s("a"), s("A"), s("b"), s("B")]);
    assert!(starts_with("event7", "event"));
    assert!(!starts_with("ev", "event"));
}

#[test]
fn sorted_map_keeps_key_order() {
    let mut m: StrMap<u8> = StrMap::new();
    m.insert(s("G2"), 2);
    m.insert(s("G10"), 10);
    m.insert(s("A"), 1);
    m.insert(s("G2"), 22);
    assert_eq!(m.len(), 3);
    assert_eq!(m.key_at(0), "A");
    assert_eq!(m.key_at(1), "G10");
    assert_eq!(m.key_at(2), "G2");
    assert_eq!(m.get("G2"), Some(&22));
    assert_eq!(m.remove("G10"), Some(10));
    assert_eq!(m.remove("G10"), None);
    assert!(!m.contains_key("G10"));
    assert_eq!(*m.value_at(1), 22);
}
