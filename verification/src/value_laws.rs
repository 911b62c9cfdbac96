//! What JSON values stand for and how they are read, whatever they hold.

use vstd::prelude::*;

use crate::error::DecodeError;
use crate::flexible::{debug_text, deserialize_flexible_i64, parse_flexible_i64};
use crate::json::{
    json_node, json_tree, json_trees, parse_json, JsonNodeView, JsonValue, JsonView, MAX_DEPTH,
};
use crate::laws::law_updates_read_back;
use crate::params::{CompanyFieldUpdates, ContactFieldUpdates};
use crate::shape::{updates_json, updates_schema, Updates};
use crate::text::{parse_i64, trim};

verus! {

// ---- Integers -------------------------------------------------------------------------------

/// An integer is what the number is, or what the string writes once it is trimmed; `null` and a
/// string that is blank give none; and everything else is refused, in words that hold it whole.
pub proof fn law_integer_is_what_was_sent(
    value: JsonValue,
    r: Result<Option<i64>, DecodeError>,
    sent: &str,
    core: &str,
    read: Option<i64>,
    text: String,
)
    requires
        call_ensures(deserialize_flexible_i64, (&value,), r),
        value matches JsonValue::Text(s) ==> sent@ == s@,
        call_ensures(trim, (sent,), core),
        call_ensures(parse_i64, (core,), read),
        call_ensures(JsonValue::to_text, (&value,), text),
    ensures
        match value {
            JsonValue::Null => r matches Ok(n) && n is None,
            JsonValue::Number(n) => match n.integer {
                Some(i) => r matches Ok(got) && got == Some(i),
                None => r matches Err(e) && e.message@ == "expected an integer, got "@ + n.text@,
            },
            JsonValue::Text(_) => if core@.len() == 0 {
                r matches Ok(n) && n is None
            } else if read is Some {
                r matches Ok(n) && n == read
            } else {
                r matches Err(e) && e.message@ == "expected an integer, got string "@ + debug_text(
                    core@,
                )
            },
            _ => r matches Err(e) && e.message@ == "expected an integer or numeric string, got "@
                + text@,
        },
{
}

/// An integer read from text is the one that is read from the value that the text holds.
pub proof fn law_integer_from_text_is_that_of_the_value(
    text: &str,
    r: Result<Option<i64>, DecodeError>,
    parsed: Result<JsonValue, DecodeError>,
    read: Result<Option<i64>, DecodeError>,
)
    requires
        call_ensures(parse_flexible_i64, (text,), r),
        call_ensures(parse_json, (text,), parsed),
        parsed matches Ok(value) ==> call_ensures(deserialize_flexible_i64, (&value,), read),
    ensures
        match parsed {
            Ok(_) => match read {
                Ok(n) => r matches Ok(got) && got == n,
                Err(e) => r matches Err(told) && told.message@ == e.message@,
            },
            Err(e) => r matches Err(told) && told.message@ == e.message@,
        },
{
}

// ---- Values ---------------------------------------------------------------------------------

/// A value stands for what it holds: an array for its items, every one, in order, and an object for
/// its members, every one, in order, with their keys.
pub proof fn law_value_stands_for_what_it_holds(value: JsonValue)
    ensures
        match value {
            JsonValue::Null => value@ is Null,
            JsonValue::Bool(b) => value@ == JsonView::Bool(b),
            JsonValue::Number(n) => value@ matches JsonView::Number(v) && v.integer == n.integer
                && v.unsigned == n.unsigned && v.text == n.text@,
            JsonValue::Text(s) => value@ == JsonView::Text(s@),
            JsonValue::Array(items) => value@ matches JsonView::Array(vs) && vs.len()
                == items@.len() && forall|i: int|
                0 <= i < items@.len() ==> #[trigger] vs[i] == items@[i]@,
            JsonValue::Object(members) => value@ matches JsonView::Object(ms) && ms.len()
                == members@.len() && forall|i: int|
                0 <= i < members@.len() ==> #[trigger] ms[i] == (members@[i].0@, members@[i].1@),
        },
{
}

/// The values of texts are as many as the texts, and each is the value of its text; there are some
/// exactly where every text has one.
proof fn lemma_json_trees_items(texts: Seq<Seq<char>>, depth: nat)
    ensures
        json_trees(texts, depth) matches Ok(vs) ==> {
            &&& vs.len() == texts.len()
            &&& forall|i: int|
                0 <= i < texts.len() ==> json_tree(#[trigger] texts[i], depth) == Ok::<
                    JsonView,
                    Seq<char>,
                >(vs[i])
        },
        (forall|i: int| 0 <= i < texts.len() ==> json_tree(#[trigger] texts[i], depth) is Ok)
            ==> json_trees(texts, depth) is Ok,
    decreases texts.len(),
{
    if texts.len() > 0 {
        let rest = texts.drop_last();
        lemma_json_trees_items(rest, depth);
        if json_trees(texts, depth) is Ok {
            let vs = json_trees(texts, depth)->Ok_0;
            assert forall|i: int| 0 <= i < texts.len() implies json_tree(#[trigger] texts[i], depth)
                == Ok::<JsonView, Seq<char>>(vs[i]) by {
                if i < rest.len() {
                    assert(rest[i] == texts[i]);
                }
            }
        }
        if forall|i: int| 0 <= i < texts.len() ==> json_tree(#[trigger] texts[i], depth) is Ok {
            assert forall|i: int| 0 <= i < rest.len() implies json_tree(
                #[trigger] rest[i],
                depth,
            ) is Ok by {
                assert(rest[i] == texts[i]);
            }
            assert(json_tree(texts[texts.len() - 1], depth) is Ok);
        }
    }
}

/// A text that has a value has the same one where it may nest deeper.
proof fn lemma_deeper_is_the_same(text: Seq<char>, depth: nat)
    requires
        json_tree(text, depth) is Ok,
    ensures
        json_tree(text, depth + 1) == json_tree(text, depth),
    decreases depth, 0nat,
{
    match json_node(text) {
        Ok(JsonNodeView::Array(items)) => {
            lemma_deeper_items(items, (depth - 1) as nat);
        },
        Ok(JsonNodeView::Object(members)) => {
            lemma_deeper_items(
                members.map_values(|m: (Seq<char>, Seq<char>)| m.1),
                (depth - 1) as nat,
            );
        },
        _ => {},
    }
}

/// Texts that have values have the same ones where they may nest deeper.
proof fn lemma_deeper_items(texts: Seq<Seq<char>>, depth: nat)
    requires
        json_trees(texts, depth) is Ok,
    ensures
        json_trees(texts, depth + 1) == json_trees(texts, depth),
    decreases depth, texts.len() + 1,
{
    if texts.len() > 0 {
        lemma_deeper_items(texts.drop_last(), depth);
        lemma_deeper_is_the_same(texts.last(), depth);
    }
}

/// A text that holds no array and no object is read as what `serde_json` finds in it; and what
/// `serde_json` refuses is refused in its words.
pub proof fn law_simple_text_is_read_as_it_is(text: &str, r: Result<JsonValue, DecodeError>)
    requires
        call_ensures(parse_json, (text,), r),
    ensures
        json_node(text@) matches Err(e) ==> (r matches Err(told) && told.message@ == e),
        json_node(text@) matches Ok(JsonNodeView::Null) ==> (r matches Ok(v) && v is Null),
        json_node(text@) matches Ok(JsonNodeView::Bool(b)) ==> (r matches Ok(v) && v
            == JsonValue::Bool(b)),
        json_node(text@) matches Ok(JsonNodeView::Number(n)) ==> (r matches Ok(v) && v is Number
            && v->Number_0.integer == n.integer && v->Number_0.unsigned == n.unsigned
            && v->Number_0.text@ == n.text),
        json_node(text@) matches Ok(JsonNodeView::Text(s)) ==> (r matches Ok(v) && v is Text
            && v->Text_0@ == s),
{
    if let Ok(v) = r {
        law_value_stands_for_what_it_holds(v);
    }
}

/// An array is read with every item, in order, each the value that is read from the item's own
/// text.
pub proof fn law_array_text_is_read_whole(
    text: &str,
    value: JsonValue,
    items: Seq<Seq<char>>,
    i: int,
    item: &str,
    read: Result<JsonValue, DecodeError>,
)
    requires
        call_ensures(parse_json, (text,), Ok::<JsonValue, DecodeError>(value)),
        json_node(text@) == Ok::<JsonNodeView, Seq<char>>(JsonNodeView::Array(items)),
        0 <= i < items.len(),
        item@ == items[i],
        call_ensures(parse_json, (item,), read),
    ensures
        value matches JsonValue::Array(vs) && vs@.len() == items.len() && (read matches Ok(v) && v@
            == vs@[i]@),
{
    let depth = (MAX_DEPTH - 1) as nat;
    law_value_stands_for_what_it_holds(value);
    lemma_json_trees_items(items, depth);
    assert(value@ is Array);
    let vs = value->Array_0;
    assert(value@->Array_0[i] == vs@[i]@);
    assert(json_tree(items[i], depth) is Ok);
    lemma_deeper_is_the_same(items[i], depth);
}

/// An object is read with every member, in order, each with its key and the value that is read from
/// the member's own text.
pub proof fn law_object_text_is_read_whole(
    text: &str,
    value: JsonValue,
    members: Seq<(Seq<char>, Seq<char>)>,
    i: int,
    member: &str,
    read: Result<JsonValue, DecodeError>,
)
    requires
        call_ensures(parse_json, (text,), Ok::<JsonValue, DecodeError>(value)),
        json_node(text@) == Ok::<JsonNodeView, Seq<char>>(JsonNodeView::Object(members)),
        0 <= i < members.len(),
        member@ == members[i].1,
        call_ensures(parse_json, (member,), read),
    ensures
        value matches JsonValue::Object(ms) && ms@.len() == members.len() && ms@[i].0@
            == members[i].0 && (read matches Ok(v) && v@ == ms@[i].1@),
{
    let depth = (MAX_DEPTH - 1) as nat;
    law_value_stands_for_what_it_holds(value);
    let inner = members.map_values(|m: (Seq<char>, Seq<char>)| m.1);
    lemma_json_trees_items(inner, depth);
    assert(value@ is Object);
    let ms = value->Object_0;
    assert(value@->Object_0[i] == (ms@[i].0@, ms@[i].1@));
    assert(inner[i] == members[i].1);
    assert(json_tree(inner[i], depth) is Ok);
    lemma_deeper_is_the_same(inner[i], depth);
}

/// An array or an object that is empty is read as an empty one.
pub proof fn law_empty_text_is_read_as_empty(text: &str, r: Result<JsonValue, DecodeError>)
    requires
        call_ensures(parse_json, (text,), r),
    ensures
        json_node(text@) matches Ok(JsonNodeView::Array(items)) && items.len() == 0 ==> (
        r matches Ok(v) && v is Array && v->Array_0@.len() == 0),
        json_node(text@) matches Ok(JsonNodeView::Object(members)) && members.len() == 0 ==> (
        r matches Ok(v) && v is Object && v->Object_0@.len() == 0),
{
    let depth = (MAX_DEPTH - 1) as nat;
    if let Ok(v) = r {
        law_value_stands_for_what_it_holds(v);
    }
    match json_node(text@) {
        Ok(JsonNodeView::Array(items)) => {
            lemma_json_trees_items(items, depth);
        },
        Ok(JsonNodeView::Object(members)) => {
            lemma_json_trees_items(members.map_values(|m: (Seq<char>, Seq<char>)| m.1), depth);
        },
        _ => {},
    }
}

/// An array or an object is read where each of its parts can be, one level less deep, however many
/// they are.
pub proof fn law_text_is_read_where_its_parts_are(
    text: Seq<char>,
    depth: nat,
    parts: Seq<Seq<char>>,
)
    requires
        depth > 0,
        json_node(text) == Ok::<JsonNodeView, Seq<char>>(JsonNodeView::Array(parts)) || (
        json_node(text) matches Ok(JsonNodeView::Object(members)) && parts == members.map_values(
            |m: (Seq<char>, Seq<char>)| m.1,
        )),
        forall|i: int|
            0 <= i < parts.len() ==> json_tree(#[trigger] parts[i], (depth - 1) as nat) is Ok,
    ensures
        json_tree(text, depth) is Ok,
{
    lemma_json_trees_items(parts, (depth - 1) as nat);
}

// ---- Updates --------------------------------------------------------------------------------

/// The updates of a company are written with a member for each of them, under its name and in
/// order, a string that is its whole text or `null`; and what is written reads back as the same
/// updates.
pub proof fn law_company_updates_are_written_whole(
    updates: CompanyFieldUpdates,
    value: JsonValue,
    read: Result<CompanyFieldUpdates, DecodeError>,
    names: Seq<Seq<char>>,
    texts: Seq<Option<Seq<char>>>,
)
    requires
        call_ensures(CompanyFieldUpdates::encode, (&updates,), value),
        call_ensures(CompanyFieldUpdates::decode, (&value,), read),
        names == seq![
            "url"@,
            "industry"@,
            "category"@,
            "size_range"@,
            "description"@,
            "hq_location"@,
            "stock_symbol"@,
            "main_phone"@,
        ],
        texts == seq![
            updates.url.deep_view(),
            updates.industry.deep_view(),
            updates.category.deep_view(),
            updates.size_range.deep_view(),
            updates.description.deep_view(),
            updates.hq_location.deep_view(),
            updates.stock_symbol.deep_view(),
            updates.main_phone.deep_view(),
        ],
    ensures
        value matches JsonValue::Object(members) && members@.len() == names.len() && forall|j: int|
            #![trigger members@[j]]
            0 <= j < names.len() ==> members@[j].0@ == names[j] && match members@[j].1 {
                JsonValue::Null => texts[j] is None,
                JsonValue::Text(s) => texts[j] == Some(s@),
                _ => false,
            },
        read matches Ok(back) && {
            &&& back.url.deep_view() == updates.url.deep_view()
            &&& back.industry.deep_view() == updates.industry.deep_view()
            &&& back.category.deep_view() == updates.category.deep_view()
            &&& back.size_range.deep_view() == updates.size_range.deep_view()
            &&& back.description.deep_view() == updates.description.deep_view()
            &&& back.hq_location.deep_view() == updates.hq_location.deep_view()
            &&& back.stock_symbol.deep_view() == updates.stock_symbol.deep_view()
            &&& back.main_phone.deep_view() == updates.main_phone.deep_view()
        },
{
    assert(updates_schema(Updates::Company).names == names);
    assert(updates@ == texts);
    law_updates_read_back(Updates::Company, texts);
    assert(value@ == updates_json(Updates::Company, texts));
    if let JsonValue::Object(members) = value {
        let views = value@->Object_0;
        assert forall|j: int|
            #![trigger members@[j]]
            0 <= j < names.len() implies members@[j].0@ == names[j] && match members@[j].1 {
            JsonValue::Null => texts[j] is None,
            JsonValue::Text(s) => texts[j] == Some(s@),
            _ => false,
        } by {
            assert(views[j] == (members@[j].0@, members@[j].1@));
        }
    }
    let back = read->Ok_0;
    assert(back@ == updates@);
    assert(back@[0] == updates@[0]);
    assert(back@[1] == updates@[1]);
    assert(back@[2] == updates@[2]);
    assert(back@[3] == updates@[3]);
    assert(back@[4] == updates@[4]);
    assert(back@[5] == updates@[5]);
    assert(back@[6] == updates@[6]);
    assert(back@[7] == updates@[7]);
}

/// Updates of a company that are made without any have none.
pub proof fn law_no_company_updates_are_none(updates: CompanyFieldUpdates)
    requires
        call_ensures(<CompanyFieldUpdates as Default>::default, (), updates),
    ensures
        updates.url is None,
        updates.industry is None,
        updates.category is None,
        updates.size_range is None,
        updates.description is None,
        updates.hq_location is None,
        updates.stock_symbol is None,
        updates.main_phone is None,
{
    assert(updates@[0] is None);
    assert(updates@[1] is None);
    assert(updates@[2] is None);
    assert(updates@[3] is None);
    assert(updates@[4] is None);
    assert(updates@[5] is None);
    assert(updates@[6] is None);
    assert(updates@[7] is None);
}

/// The updates of a contact are written with a member for each of them, under its name and in
/// order, a string that is its whole text or `null`; and what is written reads back as the same
/// updates.
pub proof fn law_contact_updates_are_written_whole(
    updates: ContactFieldUpdates,
    value: JsonValue,
    read: Result<ContactFieldUpdates, DecodeError>,
    names: Seq<Seq<char>>,
    texts: Seq<Option<Seq<char>>>,
)
    requires
        call_ensures(ContactFieldUpdates::encode, (&updates,), value),
        call_ensures(ContactFieldUpdates::decode, (&value,), read),
        names == seq![
            "schools_attended"@,
            "previous_companies"@,
            "previous_positions"@,
            "geographic_location"@,
            "ai_research_summary"@,
            "mobile_phone"@,
            "home_phone"@,
            "business_phone"@,
            "home_address"@,
            "websites"@,
            "instant_message"@,
            "birthday"@,
            "secondary_email"@,
        ],
        texts == seq![
            updates.schools_attended.deep_view(),
            updates.previous_companies.deep_view(),
            updates.previous_positions.deep_view(),
            updates.geographic_location.deep_view(),
            updates.ai_research_summary.deep_view(),
            updates.mobile_phone.deep_view(),
            updates.home_phone.deep_view(),
            updates.business_phone.deep_view(),
            updates.home_address.deep_view(),
            updates.websites.deep_view(),
            updates.instant_message.deep_view(),
            updates.birthday.deep_view(),
            updates.secondary_email.deep_view(),
        ],
    ensures
        value matches JsonValue::Object(members) && members@.len() == names.len() && forall|j: int|
            #![trigger members@[j]]
            0 <= j < names.len() ==> members@[j].0@ == names[j] && match members@[j].1 {
                JsonValue::Null => texts[j] is None,
                JsonValue::Text(s) => texts[j] == Some(s@),
                _ => false,
            },
        read matches Ok(back) && {
            &&& back.schools_attended.deep_view() == updates.schools_attended.deep_view()
            &&& back.previous_companies.deep_view() == updates.previous_companies.deep_view()
            &&& back.previous_positions.deep_view() == updates.previous_positions.deep_view()
            &&& back.geographic_location.deep_view() == updates.geographic_location.deep_view()
            &&& back.ai_research_summary.deep_view() == updates.ai_research_summary.deep_view()
            &&& back.mobile_phone.deep_view() == updates.mobile_phone.deep_view()
            &&& back.home_phone.deep_view() == updates.home_phone.deep_view()
            &&& back.business_phone.deep_view() == updates.business_phone.deep_view()
            &&& back.home_address.deep_view() == updates.home_address.deep_view()
            &&& back.websites.deep_view() == updates.websites.deep_view()
            &&& back.instant_message.deep_view() == updates.instant_message.deep_view()
            &&& back.birthday.deep_view() == updates.birthday.deep_view()
            &&& back.secondary_email.deep_view() == updates.secondary_email.deep_view()
        },
{
    assert(updates_schema(Updates::Contact).names == names);
    assert(updates@ == texts);
    law_updates_read_back(Updates::Contact, texts);
    assert(value@ == updates_json(Updates::Contact, texts));
    if let JsonValue::Object(members) = value {
        let views = value@->Object_0;
        assert forall|j: int|
            #![trigger members@[j]]
            0 <= j < names.len() implies members@[j].0@ == names[j] && match members@[j].1 {
            JsonValue::Null => texts[j] is None,
            JsonValue::Text(s) => texts[j] == Some(s@),
            _ => false,
        } by {
            assert(views[j] == (members@[j].0@, members@[j].1@));
        }
    }
    let back = read->Ok_0;
    assert(back@ == updates@);
    assert(back@[0] == updates@[0]);
    assert(back@[1] == updates@[1]);
    assert(back@[2] == updates@[2]);
    assert(back@[3] == updates@[3]);
    assert(back@[4] == updates@[4]);
    assert(back@[5] == updates@[5]);
    assert(back@[6] == updates@[6]);
    assert(back@[7] == updates@[7]);
    assert(back@[8] == updates@[8]);
    assert(back@[9] == updates@[9]);
    assert(back@[10] == updates@[10]);
    assert(back@[11] == updates@[11]);
    assert(back@[12] == updates@[12]);
}

/// Updates of a contact that are made without any have none.
pub proof fn law_no_contact_updates_are_none(updates: ContactFieldUpdates)
    requires
        call_ensures(<ContactFieldUpdates as Default>::default, (), updates),
    ensures
        updates.schools_attended is None,
        updates.previous_companies is None,
        updates.previous_positions is None,
        updates.geographic_location is None,
        updates.ai_research_summary is None,
        updates.mobile_phone is None,
        updates.home_phone is None,
        updates.business_phone is None,
        updates.home_address is None,
        updates.websites is None,
        updates.instant_message is None,
        updates.birthday is None,
        updates.secondary_email is None,
{
    assert(updates@[0] is None);
    assert(updates@[1] is None);
    assert(updates@[2] is None);
    assert(updates@[3] is None);
    assert(updates@[4] is None);
    assert(updates@[5] is None);
    assert(updates@[6] is None);
    assert(updates@[7] is None);
    assert(updates@[8] is None);
    assert(updates@[9] is None);
    assert(updates@[10] is None);
    assert(updates@[11] is None);
    assert(updates@[12] is None);
}

} // verus!
