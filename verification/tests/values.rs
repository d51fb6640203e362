use fusion_executor::members::split_members;
use fusion_executor::json::{empty_object, field, object, parse, render, render_members, text, text_or_null, Json};
use fusion_executor::paths::{dir_of, has_parent_part, is_absolute, join_path};
use fusion_executor::patterns::{group, group_or_empty};
use fusion_executor::text::{
    blank, contains, dec_i64, dec_u64, each_once, hex_u64, holds, join, lines, parse_u32, parse_u64, rsplit_once, split, split_once, starts_with,
    strip_prefix, to_lower, to_upper, trim, trim_end, word,
};

#[test]
fn values_are_read_and_written() {
    let j = parse(r#"{"b":[1,-2,0.5,null,true],"a":"x\ny"}"#).unwrap();
    assert_eq!(render(&j).as_deref(), Some(r#"{"a":"x\ny","b":[1,-2,0.5,null,true]}"#));
    assert_eq!(render(&j.copy()), render(&j));
    assert!(parse("{").is_err());
    assert_eq!(render(&Json::NInt(7)).as_deref(), Some("7"));
    assert_eq!(render(&object(vec![field("k", Json::Null), field("k", Json::Bool(true))])).as_deref(), Some(r#"{"k":true}"#));
}

#[test]
fn members_are_found() {
    let j = parse(r#"{"s":"t","n":5,"i":-5,"f":1.5,"b":false,"l":["a",1,"b"]}"#).unwrap();
    assert_eq!(j.get_str("s").as_deref(), Some("t"));
    assert_eq!(j.get_u64("n"), Some(5));
    assert_eq!(j.get_i64("n"), Some(5));
    assert_eq!(j.get_i64("i"), Some(-5));
    assert_eq!(j.get_u64("i"), None);
    assert_eq!(j.get_u64("f"), None);
    assert_eq!(j.get_bool("b"), Some(false));
    assert_eq!(j.get_texts("l"), Some(vec!["a".to_string(), "b".to_string()]));
    assert!(j.get("none").is_none());
    assert!(matches!(j.get_or_null("none"), Json::Null));
    let k = empty_object().with("a", text("x")).with("a", text("y")).with("b", text_or_null(&None)).without("b");
    assert_eq!(render(&k).as_deref(), Some(r#"{"a":"y"}"#));
}

#[test]
fn texts_are_cut() {
    assert_eq!(lines("a\r\nb\n\nc"), vec!["a", "b", "", "c"]);
    assert_eq!(split("a,b,,", ','), vec!["a", "b", "", ""]);
    assert_eq!(join(&vec!["a".to_string(), "b".to_string()], ", "), "a, b");
    assert_eq!(trim(" \u{3000}x\t"), "x");
    assert_eq!(trim_end(" x \n"), " x");
    assert!(blank(" \u{a0}\n"));
    assert_eq!(split_once("a=b=c", "="), Some(("a".to_string(), "b=c".to_string())));
    assert_eq!(rsplit_once("a=b=c", "="), Some(("a=b".to_string(), "c".to_string())));
    assert_eq!(strip_prefix("head:x", "head:").as_deref(), Some("x"));
    assert_eq!(strip_prefix("x", "head:"), None);
    assert!(starts_with("abc", "ab") && !starts_with("abc", "b"));
    assert!(contains("abc", "bc") && contains("", "") && !contains("abc", "cb"));
    assert_eq!(word("  first second"), Some("first".to_string()));
}

#[test]
fn letters_change_their_case() {
    assert_eq!(to_lower("AbC-É"), "abc-É");
    assert_eq!(to_upper("abZ"), "ABZ");
}

#[test]
fn numbers_are_read_and_written() {
    assert_eq!(dec_u64(u64::MAX), "18446744073709551615");
    assert_eq!(dec_i64(i64::MIN), "-9223372036854775808");
    assert_eq!(parse_u64("18446744073709551615"), Some(u64::MAX));
    assert_eq!(parse_u64("18446744073709551616"), None);
    assert_eq!(parse_u64("+7"), Some(7));
    assert_eq!(parse_u64(""), None);
    assert_eq!(parse_u64("7x"), None);
    assert_eq!(parse_u32("4294967296"), None);
    assert_eq!(hex_u64(255, 4), "00ff");
}

#[test]
fn lists_hold_each_once() {
    let v = vec!["a".to_string(), "b".to_string(), "a".to_string()];
    assert_eq!(each_once(&v), vec!["a".to_string(), "b".to_string()]);
    assert!(holds(&v, "b") && !holds(&v, "c"));
}

#[test]
fn paths_are_taken_apart() {
    assert_eq!(dir_of("/a/b.py"), "/a");
    assert_eq!(join_path("/a", "b"), "/a/b");
    assert_eq!(join_path("/a", "/b"), "/b");
    assert_eq!(join_path("/a/", "b"), "/a/b");
    assert!(is_absolute("/a") && !is_absolute("a"));
    assert!(has_parent_part("a/../b") && has_parent_part("..") && !has_parent_part("a..b"));
}

#[test]
fn groups_of_a_match_are_taken() {
    let m = vec![Some("all".to_string()), None];
    assert_eq!(group(&m, 0).as_deref(), Some("all"));
    assert_eq!(group(&m, 1), None);
    assert_eq!(group(&m, 9), None);
    assert_eq!(group_or_empty(&m, 1), "");
}

#[test]
fn members_keep_their_order_and_come_apart() {
    let m = vec![field("z", text("a,\"b:{")), field("a", Json::UInt(7)), field("k", Json::Arr(vec![Json::Null, Json::Bool(true)]))];
    let line = render_members(&m).unwrap();
    assert_eq!(line, r#"{"z":"a,\"b:{","a":7,"k":[null,true]}"#);
    let parts = split_members(&line);
    let parts: Vec<(&str, &str)> = parts.iter().map(|(n, v)| (n.as_str(), v.as_str())).collect();
    assert_eq!(parts, vec![("\"z\"", r#""a,\"b:{""#), ("\"a\"", "7"), ("\"k\"", "[null,true]")]);
    assert_eq!(render_members(&Vec::new()).as_deref(), Some("{}"));
    assert!(split_members("{}").is_empty());
    assert!(split_members("[1, {\"a\": 2}]").is_empty());
    assert!(split_members("\"a:b,c\"").is_empty());
}
