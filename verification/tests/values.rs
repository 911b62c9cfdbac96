//! JSON values, read and written.

use vault_mcp_core::json::{parse_json, JsonValue};
use vault_mcp_core::record::{Entry, Schema};
use vault_mcp_core::render::{array_to_text, bool_to_text, strings_to_text};
use vault_mcp_core::shape::{empty_updates, read_shape, read_updates, Shape, Updates};

const TEXTS: [&str; 14] = [
    "null",
    "true",
    "false",
    "0",
    "-12",
    "18446744073709551615",
    "1.5",
    "-0.0",
    "1e300",
    r#""a \"quoted\" \\ text""#,
    "[]",
    "{}",
    r#"[1,[2,[3,{"a":null}]],"x"]"#,
    r#"{"b":[true,false],"a":{"c":{}},"":"\u0000\u001f\b\f\n\r\t"}"#,
];

#[test]
fn a_value_is_written_as_serde_json_writes_it() {
    for text in TEXTS {
        let value: serde_json::Value = serde_json::from_str(text).unwrap();
        assert_eq!(parse_json(text).unwrap().to_text(), value.to_string());
    }
}

#[test]
fn what_is_written_reads_back() {
    for text in TEXTS {
        let written = parse_json(text).unwrap().to_text();
        assert_eq!(parse_json(&written).unwrap().to_text(), written);
    }
}

#[test]
fn every_character_is_quoted_as_serde_json_quotes_it() {
    for c in (0..=0x10ffff).filter_map(char::from_u32) {
        let s = format!("a{c}");
        assert_eq!(
            JsonValue::Text(s.clone()).to_text(),
            serde_json::Value::from(s).to_string()
        );
    }
}

#[test]
fn a_number_within_a_value_keeps_its_text() {
    for text in [
        "0.1",
        "1.7976931348623157e308",
        "5e-324",
        "2.2250738585072014e-308",
        "123456789.12345678",
        "9007199254740993.0",
        "0.30000000000000004",
    ] {
        let nested = format!("[[[{text}]]]");
        let value: serde_json::Value = serde_json::from_str(&nested).unwrap();
        assert_eq!(parse_json(&nested).unwrap().to_text(), value.to_string());
    }
}

#[test]
fn a_number_tells_which_integers_it_is() {
    let number = |text: &str| match parse_json(text).unwrap() {
        JsonValue::Number(n) => (n.integer, n.unsigned, n.text),
        other => panic!("expected a number, got {:?}", other),
    };
    assert_eq!(number("5"), (Some(5), Some(5), "5".to_string()));
    assert_eq!(number("-5"), (Some(-5), None, "-5".to_string()));
    assert_eq!(
        number("9223372036854775808"),
        (None, Some(9223372036854775808), "9223372036854775808".to_string())
    );
    assert_eq!(number("5.0"), (None, None, "5.0".to_string()));
}

#[test]
fn members_stand_in_the_order_of_their_keys_and_the_last_of_a_key_wins() {
    match parse_json(r#"{"b":1,"a":2,"b":3}"#).unwrap() {
        JsonValue::Object(members) => {
            let members: Vec<(String, String)> =
                members.into_iter().map(|(k, v)| (k, v.to_text())).collect();
            assert_eq!(
                members,
                [("a".to_string(), "2".to_string()), ("b".to_string(), "3".to_string())]
            );
        }
        other => panic!("expected an object, got {:?}", other),
    }
}

#[test]
fn nesting_has_a_limit() {
    let nested = |depth: usize| "[".repeat(depth) + &"]".repeat(depth);
    assert_eq!(parse_json(&nested(127)).unwrap().to_text(), nested(127));
    let told = parse_json(&nested(128)).unwrap_err().message;
    assert!(told.starts_with("recursion limit exceeded"), "{told}");
}

#[test]
fn arrays_are_written_from_texts() {
    assert_eq!(array_to_text(&vec![]), "[]");
    assert_eq!(array_to_text(&vec!["1".to_string(), "{}".to_string()]), "[1,{}]");
    assert_eq!(strings_to_text(&vec!["a", "b\"", ""]), r#"["a","b\"",""]"#);
    assert_eq!([bool_to_text(true), bool_to_text(false)], ["true", "false"]);
}

fn schema(denies_unknown: bool, names: Vec<&'static str>) -> Schema {
    Schema { title: "Pair", denies_unknown, names }
}

#[test]
fn a_refusal_offers_the_names_that_there_are() {
    let told = |names: Vec<&'static str>| {
        let defaults = names.iter().map(|_| Some(0i64)).collect();
        schema(true, names)
            .fill_from_entries(defaults, vec![Entry::Unknown("x".to_string())])
            .unwrap_err()
            .message
    };
    assert_eq!(told(vec!["a"]), "unknown field `x`, expected `a`");
    assert_eq!(told(vec!["a", "b"]), "unknown field `x`, expected `a` or `b`");
    assert_eq!(told(vec!["a", "b", "c"]), "unknown field `x`, expected one of `a`, `b`, `c`");
}

#[test]
fn a_record_is_filled_from_entries_and_from_items() {
    let pair = schema(false, vec!["a", "b"]);
    let entries =
        vec![Entry::Known(1, Ok(5i64)), Entry::Unknown("x".to_string()), Entry::Known(0, Ok(4))];
    assert_eq!(pair.fill_from_entries(vec![None, None], entries).unwrap(), [4, 5]);
    let entries = vec![Entry::Known(1, Ok(5i64))];
    assert_eq!(pair.fill_from_entries(vec![Some(1), None], entries).unwrap(), [1, 5]);
    assert_eq!(pair.fill_from_items(vec![None, Some(9i64)], vec![Ok(4)], 1).unwrap(), [4, 9]);
    assert_eq!(
        pair.fill_from_items(vec![None, None], vec![Ok(4i64)], 1).unwrap_err().message,
        "invalid length 1, expected struct Pair with 2 elements"
    );
    assert_eq!(pair.find(&"b".to_string()), Some(1));
    assert_eq!(pair.find(&"c".to_string()), None);
}

#[test]
fn shapes_are_read_in_the_order_of_their_fields() {
    let value = parse_json(r#"{"offset":2,"query":"q"}"#).unwrap();
    assert_eq!(
        format!("{:?}", read_shape(Shape::SearchContacts, &value).unwrap()),
        r#"[Text("q"), OptionalText(None), OptionalInteger(None), OptionalInteger(Some(2))]"#
    );
    let value = parse_json(r#"{"industry":"i"}"#).unwrap();
    let texts = read_updates(Updates::Company, &value).unwrap();
    assert_eq!(texts.len(), 8);
    assert_eq!(texts[1].as_deref(), Some("i"));
    assert!(empty_updates(Updates::Contact).iter().all(|t| t.is_none()));
    assert_eq!(empty_updates(Updates::Contact).len(), 13);
}
