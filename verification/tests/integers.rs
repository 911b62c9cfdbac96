//! Integers as callers send them.

use vault_mcp_core::error::DecodeError;
use vault_mcp_core::flexible::{deserialize_flexible_i64, parse_flexible_i64};
use vault_mcp_core::json::{parse_json, JsonNumber, JsonValue};
use vault_mcp_core::params::SearchContactsParams;
use vault_mcp_core::text::{chars_of, i64_to_text, parse_i64, trim, u64_to_text, white_space};

/// Reads parameters from JSON text.
fn read<T>(
    decode: fn(&JsonValue) -> Result<T, DecodeError>,
    text: &str,
) -> Result<T, DecodeError> {
    decode(&parse_json(text)?)
}

const INTEGERS: [i64; 11] = [
    0,
    1,
    -1,
    9,
    10,
    -10,
    25,
    200,
    123_456_789,
    i64::MAX,
    i64::MIN,
];

#[test]
fn a_number_and_the_string_that_writes_it_are_one() {
    for n in INTEGERS {
        assert_eq!(parse_flexible_i64(&format!("{n}")).unwrap(), Some(n));
        assert_eq!(parse_flexible_i64(&format!("\"{n}\"")).unwrap(), Some(n));
        assert_eq!(parse_flexible_i64(&format!("\" \\t{n}\\n\\u00a0\"")).unwrap(), Some(n));
        let as_number =
            read(SearchContactsParams::decode, &format!("{{\"query\":\"\",\"limit\":{n}}}")).unwrap();
        let as_string =
            read(SearchContactsParams::decode, &format!("{{\"query\":\"\",\"limit\":\"{n}\"}}"))
                .unwrap();
        assert_eq!(as_number.limit, Some(n));
        assert_eq!(as_string.limit, Some(n));
    }
    assert_eq!(parse_flexible_i64("\"+007\"").unwrap(), Some(7));
}

#[test]
fn null_and_a_blank_string_are_no_integer() {
    assert_eq!(parse_flexible_i64("null").unwrap(), None);
    assert_eq!(parse_flexible_i64("\"\"").unwrap(), None);
    assert_eq!(parse_flexible_i64("\" \\t\\r\\n\\u3000\"").unwrap(), None);
}

#[test]
fn a_number_that_is_no_integer_is_refused() {
    for (json, told) in [
        ("1.5", "expected an integer, got 1.5"),
        ("25.0", "expected an integer, got 25.0"),
        ("1e3", "expected an integer, got 1000.0"),
        ("9223372036854775808", "expected an integer, got 9223372036854775808"),
        ("-0", "expected an integer, got -0.0"),
    ] {
        assert_eq!(parse_flexible_i64(json).unwrap_err().message, told);
    }
}

#[test]
fn a_string_that_writes_no_integer_is_refused() {
    for (json, told) in [
        ("\" ten \"", "expected an integer, got string \"ten\""),
        ("\"1.5\"", "expected an integer, got string \"1.5\""),
        ("\"1 2\"", "expected an integer, got string \"1 2\""),
        ("\"-\"", "expected an integer, got string \"-\""),
        ("\"--1\"", "expected an integer, got string \"--1\""),
        ("\"9223372036854775808\"", "expected an integer, got string \"9223372036854775808\""),
        ("\"a\\\"b\\\\\"", "expected an integer, got string \"a\\\"b\\\\\""),
        ("\"\\u0663\"", "expected an integer, got string \"\u{663}\""),
    ] {
        assert_eq!(parse_flexible_i64(json).unwrap_err().message, told);
    }
}

#[test]
fn any_other_value_is_refused() {
    for (json, told) in [
        ("true", "expected an integer or numeric string, got true"),
        ("false", "expected an integer or numeric string, got false"),
        ("[]", "expected an integer or numeric string, got []"),
        ("[1, \"a\", null]", "expected an integer or numeric string, got [1,\"a\",null]"),
        ("{}", "expected an integer or numeric string, got {}"),
        (
            "{\"b\": {\"c\": 1.5}, \"a\": \"\\n\"}",
            "expected an integer or numeric string, got {\"a\":\"\\n\",\"b\":{\"c\":1.5}}",
        ),
    ] {
        assert_eq!(parse_flexible_i64(json).unwrap_err().message, told);
    }
}

#[test]
fn a_text_that_is_no_json_holds_no_integer() {
    assert_eq!(
        parse_flexible_i64("ten").unwrap_err().message,
        serde_json::from_str::<serde_json::Value>("ten").unwrap_err().to_string()
    );
}

#[test]
fn an_integer_is_read_from_a_value_that_was_built() {
    let number =
        JsonValue::Number(JsonNumber { integer: Some(7), unsigned: Some(7), text: "7".to_string() });
    assert_eq!(deserialize_flexible_i64(&number).unwrap(), Some(7));
    let text = JsonValue::Text(" 7 ".to_string());
    assert_eq!(deserialize_flexible_i64(&text).unwrap(), Some(7));
}

#[test]
fn white_space_is_that_of_unicode() {
    for c in (0..=0x10ffff).filter_map(char::from_u32) {
        assert_eq!(white_space(c), c.is_whitespace(), "{:?}", c);
    }
}

#[test]
fn texts_are_trimmed_as_std_trims_them() {
    for s in ["", " ", "a", " a", "a ", " a b ", "\u{85}\u{2003}x\u{a0}y\u{3000}", "\u{200b}z", "é "] {
        assert_eq!(trim(s), s.trim());
    }
}

#[test]
fn integers_are_parsed_as_std_parses_them() {
    for s in [
        "", "+", "-", "0", "-0", "+0", "00012", "-00012", "1_000", "0x10", " 1", "1 ", "12a", "a12",
        "9223372036854775807", "9223372036854775808", "-9223372036854775808",
        "-9223372036854775809", "92233720368547758070", "18446744073709551616",
        "99999999999999999999999999999999999999", "000000000000000000000000000000000001", "+-1",
        "\u{663}",
    ] {
        assert_eq!(parse_i64(s), s.parse::<i64>().ok(), "{:?}", s);
    }
}

#[test]
fn integers_are_written_as_std_writes_them() {
    for n in INTEGERS {
        assert_eq!(i64_to_text(n), n.to_string());
        assert_eq!(parse_i64(&i64_to_text(n)), Some(n));
    }
    for n in [0, 7, 10, 99, 100, u64::MAX] {
        assert_eq!(u64_to_text(n), n.to_string());
    }
}

#[test]
fn the_characters_of_a_text_are_those_of_std() {
    for s in ["", "abc", "aé\u{1f600}"] {
        assert_eq!(chars_of(s), s.chars().collect::<Vec<char>>());
    }
}
