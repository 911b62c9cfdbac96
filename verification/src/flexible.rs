//! Integers as tool callers send them: a number, or a string that writes one.

use vstd::prelude::*;

use crate::error::DecodeError;
use crate::json::{json_tree, parse_json, JsonValue, JsonView, MAX_DEPTH};
use crate::render::json_text;
use crate::text::{i64_text, parse_i64, trim, trimmed};

verus! {

/// A string as `Debug` writes it: between quotation marks, with escapes.
pub uninterp spec fn debug_text(s: Seq<char>) -> Seq<char>;

/// Calls `Debug` of `str`. Trusted: what it writes depends on `s` alone, and `debug_text` names
/// it.
#[verifier::external_body]
pub(crate) fn quote_debug(s: &str) -> (r: String)
    ensures
        r@ == debug_text(s@),
{
    format!("{:?}", s)
}

/// The integer that a JSON value stands for. A number that an `i64` can hold stands for itself;
/// a string stands for the integer that it writes, white space around it aside; `null` and a
/// blank string stand for none. Anything else is refused, with a message.
pub open spec fn flexible_i64(v: JsonView) -> Result<Option<i64>, Seq<char>> {
    match v {
        JsonView::Null => Ok(None),
        JsonView::Number(n) => match n.integer {
            Some(i) => Ok(Some(i)),
            None => Err("expected an integer, got "@ + n.text),
        },
        JsonView::Text(s) => if trimmed(s).len() == 0 {
            Ok(None)
        } else {
            match i64_text(trimmed(s)) {
                Some(i) => Ok(Some(i)),
                None => Err("expected an integer, got string "@ + debug_text(trimmed(s))),
            }
        },
        _ => Err("expected an integer or numeric string, got "@ + json_text(v)),
    }
}

/// The result of reading an integer, over what it stands for.
pub open spec fn integer_outcome(r: Result<Option<i64>, DecodeError>) -> Result<
    Option<i64>,
    Seq<char>,
> {
    match r {
        Ok(n) => Ok(n),
        Err(e) => Err(e.message@),
    }
}

/// Reads an integer from a JSON number or from a string that writes one: some callers send every
/// argument as a string, whatever type a tool declares. `null` and a blank string give none.
pub fn deserialize_flexible_i64(value: &JsonValue) -> (r: Result<Option<i64>, DecodeError>)
    ensures
        integer_outcome(r) == flexible_i64(value@),
{
    match value {
        JsonValue::Null => Ok(None),
        JsonValue::Number(n) => match n.integer {
            Some(i) => Ok(Some(i)),
            None => Err(
                DecodeError {
                    message: "expected an integer, got ".to_string().concat(n.text.as_str()),
                },
            ),
        },
        JsonValue::Text(s) => {
            let t = trim(s.as_str());
            if t.is_empty() {
                Ok(None)
            } else {
                match parse_i64(t) {
                    Some(i) => Ok(Some(i)),
                    None => Err(
                        DecodeError {
                            message: "expected an integer, got string ".to_string().concat(
                                quote_debug(t).as_str(),
                            ),
                        },
                    ),
                }
            }
        },
        _ => Err(
            DecodeError {
                message: "expected an integer or numeric string, got ".to_string().concat(
                    value.to_text().as_str(),
                ),
            },
        ),
    }
}

/// Reads an integer from JSON text, as `deserialize_flexible_i64` does from the value that
/// `parse_json` reads.
pub fn parse_flexible_i64(text: &str) -> (r: Result<Option<i64>, DecodeError>)
    ensures
        integer_outcome(r) == match json_tree(text@, MAX_DEPTH as nat) {
            Ok(v) => flexible_i64(v),
            Err(e) => Err(e),
        },
{
    match parse_json(text) {
        Ok(value) => deserialize_flexible_i64(&value),
        Err(e) => Err(e),
    }
}

} // verus!
