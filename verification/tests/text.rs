//! Text, names and JSON.

use aoraki::json::{names_value, port_value, text_value, with_field, Json};
use aoraki::names::{comes_before, sort_names, NameMap};
use aoraki::text::{
    after_last_char, before, contains, ends_with, find, join, lines, list_has, pad_left,
    pad_right, parse_number, replace, short, show, show_signed, split, split_once, starts_with,
    strip_prefix, strip_suffix, trim, trim_end_char, trim_end_text, trim_start_char,
};

fn strings(list: &[&str]) -> Vec<String> {
    list.iter().map(|s| s.to_string()).collect()
}

#[test]
fn searching_counts_characters() {
    assert_eq!(find("äöü://x", "://"), Some(3));
    assert_eq!(find("abc", "x"), None);
    assert_eq!(find("abc", ""), Some(0));
    assert!(contains("a warning b", "warning"));
    assert!(!contains("warn", "warning"));
    assert!(starts_with("org_x", "org_"));
    assert!(ends_with("version: 1", "1"));
    assert_eq!(strip_prefix("data: {}", "data: "), Some("{}"));
    assert_eq!(strip_prefix("event: x", "data: "), None);
    assert_eq!(strip_suffix("80/tcp", "/tcp"), Some("80"));
    assert_eq!(strip_suffix("80/udp", "/tcp"), None);
}

#[test]
fn trimming_takes_blanks_and_marks() {
    assert_eq!(trim("  a b\u{a0}\n"), "a b");
    assert_eq!(trim(" \t "), "");
    assert_eq!(trim_end_char("https://x//", '/'), "https://x");
    assert_eq!(trim_start_char("{{a", '{'), "a");
    assert_eq!(trim_end_text("https://x/api/v1/api/v1", "/api/v1"), "https://x");
}

#[test]
fn splitting_and_joining() {
    assert_eq!(split_once("A=1=2", '='), Some(("A", "1=2")));
    assert_eq!(split_once("A", '='), None);
    assert_eq!(before("2025-01-02T03:04", 'T'), "2025-01-02");
    assert_eq!(before("never", 'T'), "never");
    assert_eq!(after_last_char("ghcr.io/acme/site:v1", '/'), "site:v1");
    assert_eq!(split("a,,b", ','), strings(&["a", "", "b"]));
    assert_eq!(split("", ','), strings(&[""]));
    assert_eq!(lines("a\r\nb\n\nc"), strings(&["a", "b", "", "c"]));
    assert_eq!(lines(""), strings(&[]));
    assert_eq!(lines("a\n"), strings(&["a"]));
    assert_eq!(join(&strings(&["a", "b", "c"]), ", "), "a, b, c");
    assert_eq!(join(&strings(&[]), ", "), "");
    assert!(list_has(&strings(&["a", "b"]), "b"));
    assert!(!list_has(&strings(&["a", "b"]), "c"));
    assert_eq!(replace("aXXbXX", "XX", "-"), "a-b-");
    assert_eq!(replace("aaa", "aa", "b"), "ba");
}

#[test]
fn numbers_are_written_and_read() {
    assert_eq!(show(0), "0");
    assert_eq!(show(18446744073709551615), "18446744073709551615");
    assert_eq!(show_signed(-7), "-7");
    assert_eq!(show_signed(i64::MIN), "-9223372036854775808");
    assert_eq!(parse_number("0080", 65535), Some(80));
    assert_eq!(parse_number("+80", 65535), Some(80));
    assert_eq!(parse_number("65536", 65535), None);
    assert_eq!(parse_number("99999999999999999999", 65535), None);
    assert_eq!(parse_number("", 65535), None);
    assert_eq!(parse_number("-1", 65535), None);
}

#[test]
fn columns_are_padded() {
    assert_eq!(pad_right("→ab", 5), "→ab  ");
    assert_eq!(pad_right("abcdef", 3), "abcdef");
    assert_eq!(pad_left("7", 3), "  7");
}

#[test]
fn short_ids_have_seven_characters() {
    assert_eq!(short("0123456789abcdef"), "0123456");
    assert_eq!(short("?"), "?");
    assert_eq!(short("ééé7"), "ééé7");
    assert_eq!(short("ééééé"), "ééé");
}

#[test]
fn names_stand_in_their_order() {
    let mut map: NameMap<u32> = NameMap::new();
    assert!(map.is_empty());
    map.insert("staging".to_string(), 1);
    map.insert("production".to_string(), 2);
    map.insert("staging".to_string(), 3);
    assert_eq!(map.len(), 2);
    assert_eq!(map.names(), strings(&["production", "staging"]));
    assert_eq!(map.get("staging"), Some(&3));
    assert_eq!(map.get("nope"), None);
    assert_eq!(map.index_of("production"), Some(0));
    assert!(map.contains_key("production"));
    assert_eq!(map.name_at(1), "staging");
    assert_eq!(*map.value_at(0), 2);
}

#[test]
fn order_is_that_of_strings() {
    for (a, b) in [("", "a"), ("a", "ab"), ("B", "a"), ("z", "ä"), ("10", "9")] {
        assert!(comes_before(a, b) && !comes_before(b, a), "{a} {b}");
        assert_eq!(comes_before(a, b), a < b);
    }
    assert!(!comes_before("x", "x"));
}

#[test]
fn sorting_keeps_every_name() {
    let sorted = sort_names(&strings(&["b", "a", "c", "a"]));
    assert_eq!(sorted, strings(&["a", "a", "b", "c"]));
}

#[test]
fn json_is_read() {
    let text = r#"{"data":[{"name":"x","n":-3,"big":18446744073709551615,"ok":true,"f":1.5,"env":{"A":"1"},"none":{}}],"s":"a\nb"}"#;
    let json = Json::parse(text).unwrap();
    assert_eq!(json.count_at("data"), 1);
    let item = json.item_at("data", 0);
    assert_eq!(item.text_at("name"), Some("x"));
    assert_eq!(item.text_or("nope", "?"), "?");
    assert!(item.text_is("name", "x"));
    assert_eq!(item.signed_at("n"), Some(-3));
    assert_eq!(item.unsigned_at("n"), None);
    assert_eq!(item.unsigned_at("big"), Some(u64::MAX));
    assert_eq!(item.signed_at("big"), None);
    assert_eq!(item.signed_at("f"), None);
    assert!(item.true_at("ok"));
    assert!(!item.true_at("name"));
    assert!(item.fields_at("env"));
    assert!(!item.fields_at("none"));
    assert_eq!(item.text_at2("env", "A"), Some("1"));
    assert_eq!(json.text_at("s"), Some("a\nb"));
    assert_eq!(json.first_text_at2("data", "x", "y"), None);
    assert!(json.field("nope").is_none());
    assert!(json.field2("s", "x").is_none());
}

#[test]
fn text_that_is_no_json_is_refused() {
    assert!(Json::parse("").is_none());
    assert!(Json::parse("{").is_none());
    assert!(Json::parse("{} x").is_none());
}

#[test]
fn values_of_serde_json_are_taken_over() {
    let value = serde_json::Value::from(vec!["a", "b"]);
    match Json::from_value(value) {
        Json::List(items) => {
            assert_eq!(items.len(), 2);
            assert!(matches!(&items[1], Json::Text(s) if s == "b"));
        }
        _ => panic!("expected a list"),
    }
    assert!(matches!(Json::from_value(serde_json::Value::Null), Json::Null));
    assert!(matches!(Json::from_value(serde_json::Value::Bool(true)), Json::Bool(true)));
}

#[test]
fn values_are_built() {
    let mut env: NameMap<String> = NameMap::new();
    env.insert("B".to_string(), "2".to_string());
    env.insert("A".to_string(), "1".to_string());
    let fields = with_field(Vec::new(), "port", port_value(80));
    let fields = with_field(fields, "env", names_value(&env));
    let json = Json::Object(with_field(fields, "name", text_value("x")));
    assert_eq!(json.unsigned_at("port"), Some(80));
    assert_eq!(json.signed_at("port"), Some(80));
    assert_eq!(json.text_at2("env", "A"), Some("1"));
    assert_eq!(json.text_at("name"), Some("x"));
}
