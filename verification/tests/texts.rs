//! Texts, maps and JSON values.
use watermelon::json::value_to_string;
use watermelon::map::TextMap;
use watermelon::text::{
    clip, comes_before, count_chars, dec_i64, dec_u64, has_part, has_prefix, has_suffix, lines_of,
    parse_i64, parse_u16, parse_u32, parse_usize, replace_char, split_on, split_once, strip,
    trimmed, words_of,
};
use watermelon::value::{Json, Number};

#[test]
fn white_space_is_trimmed() {
    let trimmed_away: Vec<char> = (0..=0x10ffffu32)
        .filter_map(char::from_u32)
        .filter(|c| trimmed(&c.to_string()).is_empty())
        .collect();
    let mut listed: Vec<char> = ('\u{9}'..='\u{d}').collect();
    listed.extend([' ', '\u{85}', '\u{a0}', '\u{1680}']);
    listed.extend('\u{2000}'..='\u{200a}');
    listed.extend(['\u{2028}', '\u{2029}', '\u{202f}', '\u{205f}', '\u{3000}']);
    assert_eq!(trimmed_away, listed);
    assert_eq!(trimmed(" \t a b \n"), "a b");
    assert_eq!(words_of("  a \u{3000} b\n"), vec!["a", "b"]);
}

#[test]
fn texts_are_cut() {
    assert_eq!(split_on("a,b,,c", &[',']), vec!["a", "b", "", "c"]);
    assert_eq!(split_on("", &[',']), vec![""]);
    assert_eq!(split_on("a\nb,c", &['\n', ',']), vec!["a", "b", "c"]);
    assert_eq!(split_once("a:b:c", ':'), Some(("a".to_string(), "b:c".to_string())));
    assert_eq!(split_once("abc", ':'), None);
    assert_eq!(lines_of("a\r\nb\n\nc"), vec!["a", "b", "", "c"]);
    assert_eq!(lines_of("a\n"), vec!["a"]);
    assert!(lines_of("").is_empty());
    assert_eq!(strip("prefix", "pre"), Some("fix".to_string()));
    assert_eq!(strip("prefix", "fix"), None);
    assert_eq!(clip("héllo", 2), "hé");
    assert_eq!(count_chars("héllo"), 5);
    assert_eq!(replace_char("a.b.c", '.', "::"), "a::b::c");
}

#[test]
fn parts_are_found() {
    assert!(has_part("abcabd", "abd"));
    assert!(!has_part("abcab", "abd"));
    assert!(has_part("abc", ""));
    assert!(has_prefix("abc", "ab") && !has_prefix("abc", "bc"));
    assert!(has_suffix("abc", "bc") && !has_suffix("abc", "ab"));
    assert!(comes_before("a", "b") && comes_before("a", "aa") && !comes_before("b", "a"));
}

#[test]
fn numbers_are_read_and_written() {
    assert_eq!(parse_u16("65535"), Some(65535));
    assert_eq!(parse_u16("65536"), None);
    assert_eq!(parse_u32("+7"), Some(7));
    assert_eq!(parse_u32("-7"), None);
    assert_eq!(parse_u32(""), None);
    assert_eq!(parse_u32("+"), None);
    assert_eq!(parse_usize("1 "), None);
    assert_eq!(parse_i64("-9223372036854775808"), Some(i64::MIN));
    assert_eq!(parse_i64("9223372036854775808"), None);
    assert_eq!(dec_u64(0), "0");
    assert_eq!(dec_u64(u64::MAX), "18446744073709551615");
    assert_eq!(dec_i64(i64::MIN), "-9223372036854775808");
}

#[test]
fn map_keeps_its_keys_in_order() {
    let mut m: TextMap<u32> = TextMap::new();
    for (k, v) in [("b", 1), ("a", 2), ("c", 3), ("a", 4)] {
        m.insert(k.to_string(), v);
    }
    let keys: Vec<&str> = m.entries.iter().map(|(k, _)| k.as_str()).collect();
    assert_eq!(keys, vec!["a", "b", "c"]);
    assert_eq!(m.get("a"), Some(&4));
    assert_eq!(m.remove("b"), Some(1));
    assert_eq!(m.get("b"), None);
    assert_eq!(m.len(), 2);
}

#[test]
fn values_are_written_as_the_encoder_writes_them() {
    let v = Json::empty()
        .with("s", Json::text("a\"b\n\u{1}é"))
        .with("l", Json::Array(vec![Json::Null, Json::Bool(true), Json::from_int(-3)]))
        .with("e", Json::Array(vec![]))
        .with("o", Json::empty())
        .with("f", Json::Number(Number::Float("2.5".to_string())));
    let same: serde_json::Value = serde_json::from_str(&v.render()).unwrap();
    assert_eq!(v.render(), same.to_string());
    assert_eq!(v.pretty(), serde_json::to_string_pretty(&same).unwrap());
    assert_eq!(
        v.render(),
        "{\"e\":[],\"f\":2.5,\"l\":[null,true,-3],\"o\":{},\"s\":\"a\\\"b\\n\\u0001é\"}"
    );
    assert_eq!(value_to_string(&Json::Null), "");
    assert_eq!(value_to_string(&Json::text("x")), "x");
    assert_eq!(value_to_string(&Json::from_uint(7)), "7");
    assert_eq!(value_to_string(&Json::Array(vec![Json::text("x")])), "[\"x\"]");
}

#[test]
fn fields_are_looked_up() {
    let v = Json::empty().with("n", Json::from_int(-1)).with("u", Json::from_uint(5));
    assert_eq!((v.get_i64("n"), v.get_u64("n")), (Some(-1), None));
    assert_eq!((v.get_i64("u"), v.get_u64("u")), (Some(5), Some(5)));
    assert_eq!(v.get("x"), None);
    assert_eq!(Json::Null.get("x"), None);
    assert_eq!(Json::Array(vec![Json::from_uint(1)]).item(1), None);
}
