//! JSON values as the library holds them, and reading them from text.
//!
//! `serde_json` reads the text, one level at a time (`read_node`). How the levels make up the tree
//! of a value is verified.

use serde_json::Value;
use vstd::prelude::*;

use crate::error::DecodeError;

verus! {

/// A JSON number.
#[derive(Debug)]
pub struct JsonNumber {
    /// The number, where it is an integer that an `i64` can hold.
    pub integer: Option<i64>,
    /// The number, where it is an integer that a `u64` can hold.
    pub unsigned: Option<u64>,
    /// The number as JSON text.
    pub text: String,
}

/// A JSON value. The members of an object stand in the order in which they are visited.
#[derive(Debug)]
pub enum JsonValue {
    Null,
    Bool(bool),
    Number(JsonNumber),
    Text(String),
    Array(Vec<JsonValue>),
    Object(Vec<(String, JsonValue)>),
}

/// A JSON value opened by one level: what an array or an object holds is still text.
#[derive(Debug)]
pub enum JsonNode {
    Null,
    Bool(bool),
    Number(JsonNumber),
    Text(String),
    Array(Vec<String>),
    Object(Vec<(String, String)>),
}

/// What a `JsonNumber` stands for.
pub struct JsonNumberView {
    pub integer: Option<i64>,
    pub unsigned: Option<u64>,
    pub text: Seq<char>,
}

/// What a `JsonValue` stands for.
pub enum JsonView {
    Null,
    Bool(bool),
    Number(JsonNumberView),
    Text(Seq<char>),
    Array(Seq<JsonView>),
    Object(Seq<(Seq<char>, JsonView)>),
}

/// What a `JsonNode` stands for.
pub enum JsonNodeView {
    Null,
    Bool(bool),
    Number(JsonNumberView),
    Text(Seq<char>),
    Array(Seq<Seq<char>>),
    Object(Seq<(Seq<char>, Seq<char>)>),
}

impl View for JsonNumber {
    type V = JsonNumberView;

    open spec fn view(&self) -> JsonNumberView {
        JsonNumberView { integer: self.integer, unsigned: self.unsigned, text: self.text@ }
    }
}

impl View for JsonNode {
    type V = JsonNodeView;

    open spec fn view(&self) -> JsonNodeView {
        match self {
            JsonNode::Null => JsonNodeView::Null,
            JsonNode::Bool(b) => JsonNodeView::Bool(*b),
            JsonNode::Number(n) => JsonNodeView::Number(n@),
            JsonNode::Text(s) => JsonNodeView::Text(s@),
            JsonNode::Array(items) => JsonNodeView::Array(items.deep_view()),
            JsonNode::Object(members) => JsonNodeView::Object(
                members.deep_view(),
            ),
        }
    }
}

impl View for JsonValue {
    type V = JsonView;

    open spec fn view(&self) -> JsonView {
        json_view(*self)
    }
}

/// What a JSON value stands for, all the way down.
pub open spec fn json_view(v: JsonValue) -> JsonView
    decreases v,
{
    match v {
        JsonValue::Null => JsonView::Null,
        JsonValue::Bool(b) => JsonView::Bool(b),
        JsonValue::Number(n) => JsonView::Number(n@),
        JsonValue::Text(s) => JsonView::Text(s@),
        JsonValue::Array(items) => JsonView::Array(
            Seq::new(
                items@.len(),
                |i: int|
                    if 0 <= i < items@.len() {
                        json_view(items@[i])
                    } else {
                        JsonView::Null
                    },
            ),
        ),
        JsonValue::Object(members) => JsonView::Object(
            Seq::new(
                members@.len(),
                |i: int|
                    if 0 <= i < members@.len() {
                        (members@[i].0@, json_view(members@[i].1))
                    } else {
                        (Seq::empty(), JsonView::Null)
                    },
            ),
        ),
    }
}

/// The result of reading a JSON value, over what it stands for.
pub open spec fn value_outcome(r: Result<JsonValue, DecodeError>) -> Result<JsonView, Seq<char>> {
    match r {
        Ok(v) => Ok(v@),
        Err(e) => Err(e.message@),
    }
}

/// The result of reading one level, over what it stands for.
pub open spec fn node_outcome(r: Result<JsonNode, DecodeError>) -> Result<JsonNodeView, Seq<char>> {
    match r {
        Ok(node) => Ok(node@),
        Err(e) => Err(e.message@),
    }
}

/// One level of the JSON value that `text` holds, as `serde_json` reads it, or its words on why
/// `text` holds none.
pub uninterp spec fn json_node(text: Seq<char>) -> Result<JsonNodeView, Seq<char>>;

/// Calls `serde_json::from_str` for a `serde_json::Value` and opens the value by one level: an
/// item of an array and a member of an object are handed on as the text that `Value`'s `Display`
/// writes, members in the order of `serde_json::Map`. Trusted: what it returns depends on `text`
/// alone, and `json_node` names it.
#[verifier::external_body]
fn read_node(text: &str) -> (r: Result<JsonNode, DecodeError>)
    ensures
        node_outcome(r) == json_node(text@),
{
    Ok(match serde_json::from_str::<Value>(text).map_err(|e| DecodeError { message: e.to_string() })? {
        Value::Null => JsonNode::Null,
        Value::Bool(b) => JsonNode::Bool(b),
        Value::Number(n) => JsonNode::Number(
            JsonNumber { integer: n.as_i64(), unsigned: n.as_u64(), text: n.to_string() },
        ),
        Value::String(s) => JsonNode::Text(s),
        Value::Array(items) => JsonNode::Array(items.iter().map(|v| v.to_string()).collect()),
        Value::Object(members) => JsonNode::Object(
            members.into_iter().map(|(k, v)| (k, v.to_string())).collect(),
        ),
    })
}

/// How deep a JSON text may nest arrays and objects before it is refused.
pub const MAX_DEPTH: u32 = 128;

/// The whole JSON value that `text` holds, read one level at a time, with at most `depth` arrays
/// and objects around any part of it.
pub open spec fn json_tree(text: Seq<char>, depth: nat) -> Result<JsonView, Seq<char>>
    decreases depth, 0nat,
{
    match json_node(text) {
        Err(e) => Err(e),
        Ok(JsonNodeView::Null) => Ok(JsonView::Null),
        Ok(JsonNodeView::Bool(b)) => Ok(JsonView::Bool(b)),
        Ok(JsonNodeView::Number(n)) => Ok(JsonView::Number(n)),
        Ok(JsonNodeView::Text(s)) => Ok(JsonView::Text(s)),
        Ok(JsonNodeView::Array(items)) => if depth == 0 {
            Err("recursion limit exceeded"@)
        } else {
            match json_trees(items, (depth - 1) as nat) {
                Err(e) => Err(e),
                Ok(values) => Ok(JsonView::Array(values)),
            }
        },
        Ok(JsonNodeView::Object(members)) => if depth == 0 {
            Err("recursion limit exceeded"@)
        } else {
            match json_trees(members.map_values(|m: (Seq<char>, Seq<char>)| m.1), (depth - 1) as nat) {
                Err(e) => Err(e),
                Ok(values) => Ok(
                    JsonView::Object(Seq::new(values.len(), |i: int| (members[i].0, values[i]))),
                ),
            }
        },
    }
}

/// The values that a sequence of JSON texts hold, or the first failure among them.
pub open spec fn json_trees(texts: Seq<Seq<char>>, depth: nat) -> Result<Seq<JsonView>, Seq<char>>
    decreases depth, texts.len(),
{
    if texts.len() == 0 {
        Ok(Seq::empty())
    } else {
        match json_trees(texts.drop_last(), depth) {
            Err(e) => Err(e),
            Ok(values) => match json_tree(texts.last(), depth) {
                Err(e) => Err(e),
                Ok(value) => Ok(values.push(value)),
            },
        }
    }
}

/// Where some text of a sequence has no value, the sequence has the failure of the first.
proof fn lemma_json_trees_prefix(texts: Seq<Seq<char>>, n: int, depth: nat)
    requires
        0 <= n <= texts.len(),
        json_trees(texts.take(n), depth) is Err,
    ensures
        json_trees(texts, depth) == json_trees(texts.take(n), depth),
    decreases texts.len(),
{
    if n == texts.len() {
        assert(texts.take(n) == texts);
    } else {
        assert(texts.drop_last().take(n) == texts.take(n));
        lemma_json_trees_prefix(texts.drop_last(), n, depth);
    }
}

/// Values are as many as the texts they were read from.
proof fn lemma_json_trees_len(texts: Seq<Seq<char>>, depth: nat)
    ensures
        json_trees(texts, depth) matches Ok(values) ==> values.len() == texts.len(),
    decreases texts.len(),
{
    if texts.len() > 0 {
        lemma_json_trees_len(texts.drop_last(), depth);
    }
}

/// Reads the value of each of a list of JSON texts.
fn read_items(items: &Vec<String>, depth: u32) -> (r: Result<Vec<JsonValue>, DecodeError>)
    ensures
        match r {
            Ok(values) => json_trees(items.deep_view(), depth as nat) == Ok::<Seq<JsonView>, Seq<char>>(
                values@.map_values(|v: JsonValue| v@),
            ),
            Err(e) => json_trees(items.deep_view(), depth as nat) == Err::<Seq<JsonView>, Seq<char>>(
                e.message@,
            ),
        },
    decreases depth, 1nat,
{
    let ghost texts = items.deep_view();
    let mut values: Vec<JsonValue> = Vec::new();
    let mut i: usize = 0;
    assert(texts.take(0) == Seq::<Seq<char>>::empty());
    assert(values@.map_values(|v: JsonValue| v@) == Seq::<JsonView>::empty());
    while i < items.len()
        invariant
            i <= items.len(),
            texts == items.deep_view(),
            json_trees(texts.take(i as int), depth as nat) == Ok::<Seq<JsonView>, Seq<char>>(
                values@.map_values(|v: JsonValue| v@),
            ),
        decreases items.len() - i,
    {
        assert(texts.take(i + 1).drop_last() == texts.take(i as int));
        assert(texts.take(i + 1).last() == items@[i as int]@);
        let ghost before = values@.map_values(|v: JsonValue| v@);
        match read_tree(items[i].as_str(), depth) {
            Ok(value) => {
                values.push(value);
                assert(values@.map_values(|v: JsonValue| v@) == before.push(value@));
            },
            Err(e) => {
                proof {
                    lemma_json_trees_prefix(texts, i + 1, depth as nat);
                }
                return Err(e);
            },
        }
        i += 1;
    }
    assert(texts.take(items@.len() as int) == texts);
    Ok(values)
}

/// Reads a JSON text, one level at a time.
fn read_tree(text: &str, depth: u32) -> (r: Result<JsonValue, DecodeError>)
    ensures
        value_outcome(r) == json_tree(text@, depth as nat),
    decreases depth, 0nat,
{
    match read_node(text) {
        Err(e) => Err(e),
        Ok(JsonNode::Null) => Ok(JsonValue::Null),
        Ok(JsonNode::Bool(b)) => Ok(JsonValue::Bool(b)),
        Ok(JsonNode::Number(n)) => Ok(JsonValue::Number(n)),
        Ok(JsonNode::Text(s)) => Ok(JsonValue::Text(s)),
        Ok(JsonNode::Array(items)) => {
            if depth == 0 {
                return Err(DecodeError { message: "recursion limit exceeded".to_string() });
            }
            match read_items(&items, depth - 1) {
                Err(e) => Err(e),
                Ok(values) => {
                    let ghost views = values@.map_values(|v: JsonValue| v@);
                    let value = JsonValue::Array(values);
                    assert(value@->Array_0 == views);
                    Ok(value)
                },
            }
        },
        Ok(JsonNode::Object(members)) => {
            if depth == 0 {
                return Err(DecodeError { message: "recursion limit exceeded".to_string() });
            }
            let ghost pairs = members.deep_view();
            let ghost inner = pairs.map_values(|m: (Seq<char>, Seq<char>)| m.1);
            let items = member_texts(&members);
            assert(items.deep_view() == inner);
            match read_items(&items, depth - 1) {
                Err(e) => Err(e),
                Ok(values) => {
                    let ghost views = values@.map_values(|v: JsonValue| v@);
                    proof {
                        lemma_json_trees_len(inner, (depth - 1) as nat);
                    }
                    let value = JsonValue::Object(with_keys(&members, values));
                    assert(value@->Object_0 == Seq::new(
                        views.len(),
                        |i: int| (pairs[i].0, views[i]),
                    ));
                    Ok(value)
                },
            }
        },
    }
}

/// The texts of an object's members, without their keys.
fn member_texts(members: &Vec<(String, String)>) -> (r: Vec<String>)
    ensures
        r@ == members@.map_values(|m: (String, String)| m.1),
{
    let mut texts: Vec<String> = Vec::new();
    for i in 0..members.len()
        invariant
            texts@ == members@.take(i as int).map_values(|m: (String, String)| m.1),
    {
        texts.push(members[i].1.clone());
    }
    assert(members@.take(members@.len() as int) == members@);
    texts
}

/// The values of an object's members, with their keys.
fn with_keys(members: &Vec<(String, String)>, values: Vec<JsonValue>) -> (r: Vec<
    (String, JsonValue),
>)
    requires
        members.len() == values.len(),
    ensures
        r@ == Seq::new(members@.len(), |i: int| (members@[i].0, values@[i])),
{
    let mut pairs: Vec<(String, JsonValue)> = Vec::new();
    let mut i: usize = 0;
    for value in it: values
        invariant
            it.seq() == values@,
            i == it.index(),
            members.len() == values@.len(),
            pairs@ == Seq::new(i as nat, |k: int| (members@[k].0, values@[k])),
    {
        pairs.push((members[i].0.clone(), value));
        i += 1;
    }
    pairs
}

/// Reads the JSON value that `text` holds. Of an object's members with one key the last is read,
/// and members stand in the order of their keys.
pub fn parse_json(text: &str) -> (r: Result<JsonValue, DecodeError>)
    ensures
        value_outcome(r) == json_tree(text@, MAX_DEPTH as nat),
{
    read_tree(text, MAX_DEPTH)
}

} // verus!
