//! JSON as compact text: no white space, members in the order in which they stand.

use serde_json::Value;
use vstd::prelude::*;

use crate::json::{JsonValue, JsonView};

verus! {

/// The lower-case hexadecimal digit for `d`, which is below sixteen.
pub open spec fn hex_digit(d: nat) -> char {
    if d < 10 {
        (48 + d) as char
    } else {
        (87 + d) as char
    }
}

/// How a character stands inside a JSON string.
pub open spec fn escaped_char(c: char) -> Seq<char> {
    let n = c as nat;
    if c == '"' || c == '\\' {
        seq!['\\', c]
    } else if n == 8 {
        seq!['\\', 'b']
    } else if n == 9 {
        seq!['\\', 't']
    } else if n == 10 {
        seq!['\\', 'n']
    } else if n == 12 {
        seq!['\\', 'f']
    } else if n == 13 {
        seq!['\\', 'r']
    } else if n < 32 {
        seq!['\\', 'u', '0', '0', hex_digit(n / 16), hex_digit(n % 16)]
    } else {
        seq![c]
    }
}

/// How the characters of a text stand inside a JSON string.
pub open spec fn escaped(s: Seq<char>) -> Seq<char>
    decreases s.len(),
{
    if s.len() == 0 {
        Seq::empty()
    } else {
        escaped(s.drop_last()) + escaped_char(s.last())
    }
}

/// A text as a JSON string, with its quotation marks.
pub open spec fn quoted(s: Seq<char>) -> Seq<char> {
    seq!['"'] + escaped(s) + seq!['"']
}

/// Texts one after the other, with a comma between each and the next.
pub open spec fn joined(texts: Seq<Seq<char>>) -> Seq<char>
    decreases texts.len(),
{
    if texts.len() == 0 {
        Seq::empty()
    } else if texts.len() == 1 {
        texts[0]
    } else {
        joined(texts.drop_last()) + ","@ + texts.last()
    }
}

/// A JSON array whose items have the given texts.
pub open spec fn array_text(items: Seq<Seq<char>>) -> Seq<char> {
    "["@ + joined(items) + "]"@
}

/// A JSON object whose members have the given keys and texts.
pub open spec fn object_text(members: Seq<(Seq<char>, Seq<char>)>) -> Seq<char> {
    "{"@ + joined(
        members.map_values(|m: (Seq<char>, Seq<char>)| quoted(m.0) + ":"@ + m.1),
    ) + "}"@
}

/// A truth value as JSON.
pub open spec fn bool_text(b: bool) -> Seq<char> {
    if b {
        "true"@
    } else {
        "false"@
    }
}

/// A JSON value as text.
pub open spec fn json_text(v: JsonView) -> Seq<char>
    decreases v,
{
    match v {
        JsonView::Null => "null"@,
        JsonView::Bool(b) => bool_text(b),
        JsonView::Number(n) => n.text,
        JsonView::Text(s) => quoted(s),
        JsonView::Array(items) => array_text(item_texts(items)),
        JsonView::Object(members) => object_text(member_texts(members)),
    }
}

/// The text of each of an array's items.
pub open spec fn item_texts(items: Seq<JsonView>) -> Seq<Seq<char>>
    decreases items,
{
    Seq::new(
        items.len(),
        |i: int|
            if 0 <= i < items.len() {
                json_text(items[i])
            } else {
                Seq::empty()
            },
    )
}

/// The key and the text of each of an object's members.
pub open spec fn member_texts(members: Seq<(Seq<char>, JsonView)>) -> Seq<(Seq<char>, Seq<char>)>
    decreases members,
{
    Seq::new(
        members.len(),
        |i: int|
            if 0 <= i < members.len() {
                (members[i].0, json_text(members[i].1))
            } else {
                (Seq::empty(), Seq::empty())
            },
    )
}

/// Calls `Display` of `serde_json::Value` on a string value. Trusted: it writes the string
/// between quotation marks, with a backslash before a quotation mark and a backslash, the short
/// escapes for backspace, tab, line feed, form feed and carriage return, `\u00` and two
/// hexadecimal digits for the other characters below space, and every other character as it is.
#[verifier::external_body]
pub(crate) fn quote_json(s: &str) -> (r: String)
    ensures
        r@ == quoted(s@),
{
    Value::from(s).to_string()
}

/// A truth value as JSON text.
pub fn bool_to_text(b: bool) -> (r: String)
    ensures
        r@ == bool_text(b),
{
    if b {
        "true".to_string()
    } else {
        "false".to_string()
    }
}

/// Texts one after the other, with a comma between each and the next.
fn join(texts: &Vec<String>) -> (r: String)
    ensures
        r@ == joined(texts.deep_view()),
{
    let ghost views = texts.deep_view();
    let mut text = String::new();
    for i in 0..texts.len()
        invariant
            views == texts.deep_view(),
            text@ == joined(views.take(i as int)),
    {
        assert(views.take(i + 1).drop_last() == views.take(i as int));
        assert(views.take(i + 1).last() == texts@[i as int]@);
        if i > 0 {
            text.append(",");
        } else {
            assert(text@ + texts@[0]@ == texts@[0]@);
        }
        text.append(texts[i].as_str());
    }
    assert(views.take(texts@.len() as int) == views);
    text
}

/// A JSON array whose items have the given texts.
pub fn array_to_text(items: &Vec<String>) -> (r: String)
    ensures
        r@ == array_text(items.deep_view()),
{
    let mut text = "[".to_string();
    text.append(join(items).as_str());
    text.append("]");
    text
}

/// A JSON array of strings.
pub fn strings_to_text(strings: &Vec<&'static str>) -> (r: String)
    ensures
        r@ == array_text(strings.deep_view().map_values(|s: Seq<char>| quoted(s))),
{
    let mut items: Vec<String> = Vec::new();
    for i in 0..strings.len()
        invariant
            items.len() == i,
            forall|k: int| 0 <= k < i ==> #[trigger] items@[k]@ == quoted(strings@[k]@),
    {
        items.push(quote_json(strings[i]));
    }
    assert(items.deep_view() == strings.deep_view().map_values(|s: Seq<char>| quoted(s)));
    array_to_text(&items)
}

impl JsonValue {
    /// The value as compact JSON text.
    pub fn to_text(&self) -> (r: String)
        ensures
            r@ == json_text(self@),
        decreases self,
    {
        match self {
            JsonValue::Null => "null".to_string(),
            JsonValue::Bool(b) => bool_to_text(*b),
            JsonValue::Number(n) => n.text.clone(),
            JsonValue::Text(s) => quote_json(s.as_str()),
            JsonValue::Array(items) => {
                let mut texts: Vec<String> = Vec::new();
                for i in 0..items.len()
                    invariant
                        self matches JsonValue::Array(own) && own == items,
                        texts.len() == i,
                        forall|k: int|
                            0 <= k < i ==> #[trigger] texts@[k]@ == json_text(items@[k]@),
                {
                    texts.push(items[i].to_text());
                }
                assert(texts.deep_view() == item_texts(self@->Array_0));
                array_to_text(&texts)
            },
            JsonValue::Object(members) => {
                let mut texts: Vec<String> = Vec::new();
                for i in 0..members.len()
                    invariant
                        self matches JsonValue::Object(own) && own == members,
                        texts.len() == i,
                        forall|k: int|
                            0 <= k < i ==> #[trigger] texts@[k]@ == quoted(members@[k].0@) + ":"@
                                + json_text(members@[k].1@),
                {
                    let mut text = quote_json(members[i].0.as_str());
                    text.append(":");
                    text.append(members[i].1.to_text().as_str());
                    texts.push(text);
                }
                assert(texts.deep_view() == member_texts(self@->Object_0).map_values(
                    |m: (Seq<char>, Seq<char>)| quoted(m.0) + ":"@ + m.1,
                ));
                let mut text = "{".to_string();
                text.append(join(&texts).as_str());
                text.append("}");
                text
            },
        }
    }
}

} // verus!
