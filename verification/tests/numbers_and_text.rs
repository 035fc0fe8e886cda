use common::decimal::{i64_to_string, parse_i64, parse_u64, u64_to_string};
use common::json::{json_object_of, json_string_of, TextMap};
use common::text::{str_eq, strip_prefix_of, trim};

#[test]
fn decimal_u64_reads_like_std() {
    assert_eq!(parse_u64("0"), Some(0));
    assert_eq!(parse_u64("+42"), Some(42));
    assert_eq!(parse_u64("18446744073709551615"), Some(u64::MAX));
    assert_eq!(parse_u64("18446744073709551616"), None);
    assert_eq!(parse_u64(""), None);
    assert_eq!(parse_u64("+"), None);
    assert_eq!(parse_u64("-1"), None);
    assert_eq!(parse_u64("12a"), None);
    for s in ["0", "+7", "99999", "18446744073709551615", "", "x", "-3"] {
        assert_eq!(parse_u64(s), s.parse::<u64>().ok());
    }
}

#[test]
fn decimal_i64_reads_like_std() {
    assert_eq!(parse_i64("-9223372036854775808"), Some(i64::MIN));
    assert_eq!(parse_i64("9223372036854775807"), Some(i64::MAX));
    assert_eq!(parse_i64("9223372036854775808"), None);
    assert_eq!(parse_i64("-9223372036854775809"), None);
    assert_eq!(parse_i64("-0"), Some(0));
    assert_eq!(parse_i64("+15"), Some(15));
    assert_eq!(parse_i64("-"), None);
    assert_eq!(parse_i64(" 1"), None);
    for s in ["-12", "+0", "1700000000", "-", "", "1e3", "--1"] {
        assert_eq!(parse_i64(s), s.parse::<i64>().ok());
    }
}

#[test]
fn decimal_text_writes_like_std() {
    assert_eq!(u64_to_string(0), "0");
    assert_eq!(u64_to_string(123456), "123456");
    assert_eq!(u64_to_string(u64::MAX), u64::MAX.to_string());
    assert_eq!(i64_to_string(-1700000000), "-1700000000");
    assert_eq!(i64_to_string(i64::MIN), i64::MIN.to_string());
    assert_eq!(i64_to_string(i64::MAX), i64::MAX.to_string());
}

#[test]
fn decimal_text_reads_back() {
    for x in [0i64, 1, -1, 59, 1_700_000_000, i64::MIN, i64::MAX] {
        assert_eq!(parse_i64(&i64_to_string(x)), Some(x));
    }
}

#[test]
fn text_trim_like_std() {
    for s in ["  abc \t", "\u{3000}x\u{2009}", "", "   ", "a b", "\n\rtok\u{85}"] {
        assert_eq!(trim(s), s.trim());
    }
}

#[test]
fn text_strip_prefix_and_eq() {
    assert_eq!(strip_prefix_of("Bearer abc", "Bearer "), Some("abc"));
    assert_eq!(strip_prefix_of("Bear", "Bearer "), None);
    assert_eq!(strip_prefix_of("bearer abc", "Bearer "), None);
    assert!(str_eq("héllo", "héllo"));
    assert!(!str_eq("hello", "hell"));
}

#[test]
fn json_string_escapes_like_serde_json() {
    let s = "a\"b\\c\n\u{1}\u{8}\u{c}\r\tz/é";
    assert_eq!(json_string_of(s), "\"a\\\"b\\\\c\\n\\u0001\\b\\f\\r\\tz/é\"");
    assert_eq!(json_string_of(s), serde_json::to_string(s).unwrap());
}

#[test]
fn json_object_and_its_members() {
    let pairs = vec![("b".to_string(), "2".to_string()), ("a".to_string(), "x\"y".to_string())];
    let text = json_object_of(&pairs);
    assert_eq!(text, "{\"b\":\"2\",\"a\":\"x\\\"y\"}");
    let fields = TextMap::parse(&text).unwrap();
    assert_eq!(fields.get("a").unwrap(), "x\"y");
    assert_eq!(fields.get("b").unwrap(), "2");
    assert!(fields.get("c").is_none());
    let mixed = TextMap::parse("{\"a\":1,\"b\":\"t\",\"c\":null}").unwrap();
    assert!(mixed.get("a").is_none());
    assert_eq!(mixed.get("b").unwrap(), "t");
    assert!(mixed.get("c").is_none());
    assert_eq!(mixed.entries().len(), 1);
    assert!(TextMap::parse("[\"a\"]").is_none());
    assert_eq!(json_object_of(&vec![]), "{}");
}

#[test]
fn text_map_insert_replaces() {
    let mut m = TextMap::new();
    m.insert("k".to_string(), "1".to_string());
    m.insert("j".to_string(), "2".to_string());
    m.insert("k".to_string(), "3".to_string());
    assert_eq!(m.get("k").unwrap(), "3");
    assert_eq!(m.get("j").unwrap(), "2");
    assert_eq!(m.entries().len(), 2);
}
