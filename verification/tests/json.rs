//! JSON values and their text.

use serde_json::Value;
use web_bridge::json::{Fields, Json};
use web_bridge::text::{decimal_text, is_text_before, with_first_replaced};

fn value(text: &str) -> Value {
    serde_json::from_str(text).unwrap()
}

#[test]
fn text_is_read_and_written() {
    let texts = [
        "null",
        "true",
        "0",
        "-7",
        "18446744073709551615",
        "-9223372036854775808",
        "1.5",
        "\"a \\\"quoted\\\" line\\n\"",
        "[]",
        "[1,[2,{\"a\":null}]]",
        "{}",
        "{\"a\":1,\"b\":{\"c\":[false]}}",
    ];
    for text in texts {
        assert_eq!(Json::parse(text).unwrap().into_text(), text);
        assert_eq!(Json::parse(text).unwrap().clone().into_value(), value(text));
        assert_eq!(Json::from_value(value(text)), Json::parse(text).unwrap());
    }
}

#[test]
fn objects_are_written_by_name() {
    assert_eq!(Json::parse("{\"b\": 1, \"a\": 2}").unwrap().into_text(), "{\"a\":2,\"b\":1}");
}

#[test]
fn later_entries_replace_earlier_ones() {
    let j = Fields::new().put("a", Json::Unsigned(1)).put("a", Json::Unsigned(2)).into_json();
    assert_eq!(j.get("a"), Some(&Json::Unsigned(2)));
    assert_eq!(j.into_text(), "{\"a\":2}");
    let listed = Json::Object(vec![
        ("a".to_owned(), Json::Unsigned(1)),
        ("b".to_owned(), Json::Null),
        ("a".to_owned(), Json::Unsigned(2)),
        ("a".to_owned(), Json::Unsigned(3)),
    ]);
    assert_eq!(listed.into_text(), "{\"a\":3,\"b\":null}");
    assert_eq!(Json::parse("{\"a\":1,\"a\":2}").unwrap().into_text(), "{\"a\":2}");
}

#[test]
fn numbers_keep_their_integers() {
    assert_eq!(Json::parse("5"), Ok(Json::Unsigned(5)));
    assert_eq!(Json::parse("-5"), Ok(Json::Signed(-5)));
    assert_eq!(Json::Signed(-5).into_text(), "-5");
    assert_eq!(Json::Signed(5).into_text(), "5");
    match Json::parse("0.25") {
        Ok(Json::Number(n)) => assert_eq!(n.as_f64(), Some(0.25)),
        other => panic!("{other:?}"),
    }
}

#[test]
fn malformed_text_is_complained_about() {
    let e = serde_json::from_str::<Value>("{").unwrap_err().to_string();
    assert_eq!(Json::parse("{"), Err(e));
    assert_eq!(Json::parse(""), Err("EOF while parsing a value at line 1 column 0".to_owned()));
}

#[test]
fn strings_are_taken_out_or_complained_about() {
    assert_eq!(Json::text("x").into_string(), Ok("x".to_owned()));
    assert_eq!(
        Json::Unsigned(5).into_string(),
        Err("invalid type: integer `5`, expected a string".to_owned())
    );
    assert_eq!(Json::Null.into_string(), Err("invalid type: null, expected a string".to_owned()));
    assert_eq!(
        Json::empty_object().into_string(),
        Err("invalid type: map, expected a string".to_owned())
    );
}

#[test]
fn only_objects_have_fields() {
    let j = Json::parse("{\"a\":\"x\",\"b\":1}").unwrap();
    assert_eq!(j.get_text("a").map(|s| s.as_str()), Some("x"));
    assert_eq!(j.get_text("b"), None);
    assert_eq!(j.get("c"), None);
    assert_eq!(Json::parse("[\"a\"]").unwrap().get("a"), None);
    assert!(Json::parse("[]").unwrap().is_array());
    assert!(!j.is_array());
    assert_eq!(Json::Bool(true).as_bool(), Some(true));
    assert_eq!(Json::Null.as_bool(), None);
}

#[test]
fn decimals_have_no_leading_zeros() {
    assert_eq!(decimal_text(0), "0");
    assert_eq!(decimal_text(7421), "7421");
    assert_eq!(decimal_text(u64::MAX), "18446744073709551615");
}

#[test]
fn the_first_occurrence_is_replaced() {
    assert_eq!(with_first_replaced("http://x/http", "http", "ws"), "ws://x/http");
    assert_eq!(with_first_replaced("https://x", "http", "ws"), "wss://x");
    assert_eq!(with_first_replaced("ftp://x", "http", "ws"), "ftp://x");
    assert_eq!(with_first_replaced("", "http", "ws"), "");
    assert_eq!(with_first_replaced("ab", "", "x"), "xab");
}

#[test]
fn texts_are_ordered_by_their_characters() {
    assert!(is_text_before("a", "b"));
    assert!(is_text_before("a", "aa"));
    assert!(is_text_before("", "a"));
    assert!(is_text_before("a-", "a_"));
    assert!(!is_text_before("a", "a"));
    assert!(!is_text_before("b", "aa"));
}
