//! How parameters are read that come as an array, and in which words parameters are refused.

use vstd::prelude::*;

use crate::flexible::debug_text;
use crate::json::{JsonNumberView, JsonView};
use crate::laws::{lemma_first_fault_after, lemma_position};
use crate::param_laws::{lemma_shape, lemma_taken, lemma_takes, lemma_updates};
use crate::record::{entry_is_for, filled, has_entry, EntryView, SchemaView};
use crate::shape::{
    entries_of, field_default, field_value, items_of, record, record_of, shape_defaults,
    shape_kinds, shape_reads, shape_schema, updates_defaults, updates_reads, updates_schema,
    updates_value, FieldKind, Shape, Updates, ValueView,
};
use crate::text::decimal;

verus! {

// ---- Arrays ---------------------------------------------------------------------------------

/// Where every field has a value, no item is refused.
proof fn lemma_first_item_fault_none<V>(
    schema: SchemaView,
    defaults: Seq<Option<V>>,
    items: Seq<Result<V, Seq<char>>>,
    j: int,
)
    requires
        0 <= j,
        forall|k: int|
            0 <= k < schema.names.len() ==> #[trigger] schema.item_value(defaults, items, k) is Ok,
    ensures
        schema.first_item_fault(defaults, items, j) is None,
    decreases schema.names.len() - j,
{
    if j < schema.names.len() {
        lemma_first_item_fault_none(schema, defaults, items, j + 1);
    }
}

/// An array gives a record what the object gives it that has the items as members, each under the
/// name of the field at its position.
proof fn lemma_array_is_read_by_position<V>(
    schema: SchemaView,
    defaults: Seq<Option<V>>,
    read: spec_fn(int, JsonView) -> Result<V, Seq<char>>,
    items: Seq<JsonView>,
    members: Seq<(Seq<char>, JsonView)>,
)
    requires
        defaults.len() == schema.names.len(),
        forall|a: int, b: int|
            0 <= a < b < schema.names.len() ==> schema.names[a] != schema.names[b],
        items.len() <= schema.names.len() ==> members == Seq::new(
            items.len(),
            |j: int| (schema.names[j], items[j]),
        ),
    ensures
        items.len() > schema.names.len() ==> record_of(
            schema,
            defaults,
            read,
            JsonView::Array(items),
        ) is Err,
        items.len() <= schema.names.len() ==> {
            &&& record_of(schema, defaults, read, JsonView::Array(items)) is Ok <==> record_of(
                schema,
                defaults,
                read,
                JsonView::Object(members),
            ) is Ok
            &&& record_of(schema, defaults, read, JsonView::Array(items)) matches Ok(vs)
                ==> record_of(schema, defaults, read, JsonView::Object(members)) == Ok::<
                Seq<V>,
                Seq<char>,
            >(vs)
        },
{
    if items.len() <= schema.names.len() {
        let given = items_of(schema, read, items);
        let by_position = record_of(schema, defaults, read, JsonView::Array(items));
        let by_name = record_of(schema, defaults, read, JsonView::Object(members));
        if by_position is Ok {
            schema.lemma_no_item_fault(defaults, given, 0);
            assert forall|i: int, j: int|
                #![trigger members[i], schema.names[j]]
                0 <= i < members.len() && 0 <= j < schema.names.len() && members[i].0
                    == schema.names[j] implies read(j, members[i].1) is Ok by {
                assert(members[i].0 == schema.names[i]);
                if i < j {
                    assert(schema.names[i] != schema.names[j]);
                } else if j < i {
                    assert(schema.names[j] != schema.names[i]);
                }
                assert(schema.item_value(defaults, given, j) is Ok);
            }
            assert forall|i: int, k: int|
                #![trigger members[i], members[k]]
                0 <= i < k < members.len() && schema.names.contains(
                    members[i].0,
                ) implies members[i].0 != members[k].0 by {
                assert(schema.names[i] != schema.names[k]);
            }
            assert forall|j: int|
                #![trigger defaults[j]]
                0 <= j < schema.names.len() && defaults[j] is None implies exists|i: int|
                0 <= i < members.len() && (#[trigger] members[i]).0 == schema.names[j] by {
                assert(schema.item_value(defaults, given, j) is Ok);
                assert(members[j].0 == schema.names[j]);
            }
            assert forall|i: int| 0 <= i < members.len() implies schema.names.contains(
                (#[trigger] members[i]).0,
            ) by {
                assert(schema.names[i] == members[i].0);
            }
            lemma_takes(schema, defaults, read, members);
        }
        if by_name is Ok {
            let vs = by_name->Ok_0;
            lemma_taken(schema, defaults, read, members, vs);
            assert forall|j: int| 0 <= j < schema.names.len() implies #[trigger] schema.item_value(
                defaults,
                given,
                j,
            ) == Ok::<V, Seq<char>>(vs[j]) by {
                if j < items.len() {
                    assert(members[j] == (schema.names[j], items[j]));
                    assert(read(j, members[j].1) == Ok::<V, Seq<char>>(vs[j]));
                } else {
                    assert forall|i: int| 0 <= i < members.len() implies (#[trigger] members[i]).0
                        != schema.names[j] by {
                        assert(members[i].0 == schema.names[i]);
                        assert(schema.names[i] != schema.names[j]);
                    }
                    assert(defaults[j] == Some(vs[j]));
                }
            }
            lemma_first_item_fault_none(schema, defaults, given, 0);
            assert(by_position->Ok_0 == vs);
        }
    }
}

/// An array is taken as a tool's parameters exactly where the object is that has its items as
/// members, in order, under the parameters' names, and gives the same parameters; one with more
/// items than there are parameters is refused.
pub proof fn law_array_is_read_as_the_object_of_its_items(
    shape: Shape,
    items: Seq<JsonView>,
    members: Seq<(Seq<char>, JsonView)>,
)
    requires
        items.len() <= shape_schema(shape).names.len() ==> members.len() == items.len(),
        forall|j: int|
            0 <= j < members.len() && j < items.len() ==> #[trigger] members[j] == (
                shape_schema(shape).names[j],
                items[j],
            ),
    ensures
        items.len() > shape_schema(shape).names.len() ==> record(
            shape,
            JsonView::Array(items),
        ) is Err,
        items.len() <= shape_schema(shape).names.len() ==> {
            &&& record(shape, JsonView::Array(items)) is Ok <==> record(
                shape,
                JsonView::Object(members),
            ) is Ok
            &&& record(shape, JsonView::Array(items)) matches Ok(vs) ==> record(
                shape,
                JsonView::Object(members),
            ) == Ok::<Seq<ValueView>, Seq<char>>(vs)
        },
{
    lemma_shape(shape);
    let schema = shape_schema(shape);
    if items.len() <= schema.names.len() {
        assert(members == Seq::new(items.len(), |j: int| (schema.names[j], items[j])));
    }
    lemma_array_is_read_by_position(
        schema,
        shape_defaults(shape),
        shape_reads(shape),
        items,
        members,
    );
}

/// An array is taken as a record of updates exactly where the object is that has its items as
/// members, in order, under the names of the updates, and gives the same updates; one with more
/// items than there are names is refused.
pub proof fn law_array_of_updates_is_read_as_the_object_of_its_items(
    updates: Updates,
    items: Seq<JsonView>,
    members: Seq<(Seq<char>, JsonView)>,
)
    requires
        items.len() <= updates_schema(updates).names.len() ==> members.len() == items.len(),
        forall|j: int|
            0 <= j < members.len() && j < items.len() ==> #[trigger] members[j] == (
                updates_schema(updates).names[j],
                items[j],
            ),
    ensures
        items.len() > updates_schema(updates).names.len() ==> updates_value(
            updates,
            JsonView::Array(items),
        ) is Err,
        items.len() <= updates_schema(updates).names.len() ==> {
            &&& updates_value(updates, JsonView::Array(items)) is Ok <==> updates_value(
                updates,
                JsonView::Object(members),
            ) is Ok
            &&& updates_value(updates, JsonView::Array(items)) matches Ok(vs) ==> updates_value(
                updates,
                JsonView::Object(members),
            ) == Ok::<Seq<Option<Seq<char>>>, Seq<char>>(vs)
        },
{
    lemma_updates(updates);
    let schema = updates_schema(updates);
    if items.len() <= schema.names.len() {
        assert(members == Seq::new(items.len(), |j: int| (schema.names[j], items[j])));
    }
    lemma_array_is_read_by_position(
        schema,
        updates_defaults(updates),
        updates_reads(),
        items,
        members,
    );
}

/// An array of more items than a tool has parameters is refused with how many they are.
pub proof fn law_refusal_of_a_long_array_tells_its_length(shape: Shape, items: Seq<JsonView>)
    requires
        items.len() > shape_schema(shape).names.len(),
        forall|j: int|
            0 <= j < shape_kinds(shape).len() ==> field_value(
                #[trigger] shape_kinds(shape)[j],
                items[j],
            ) is Ok,
    ensures
        record(shape, JsonView::Array(items)) == Err::<Seq<ValueView>, Seq<char>>(
            "invalid length "@ + decimal(items.len() as int) + ", expected "@
                + "fewer elements in array"@,
        ),
{
    lemma_shape(shape);
    let schema = shape_schema(shape);
    let given = items_of(schema, shape_reads(shape), items);
    assert forall|k: int| 0 <= k < schema.names.len() implies #[trigger] schema.item_value(
        shape_defaults(shape),
        given,
        k,
    ) is Ok by {
        assert(given[k] == field_value(shape_kinds(shape)[k], items[k]));
    }
    lemma_first_item_fault_none(schema, shape_defaults(shape), given, 0);
}

// ---- Refusals -------------------------------------------------------------------------------

/// Nothing but an object or an array is taken as a tool's parameters, or as updates.
pub proof fn law_other_values_are_refused(shape: Shape, updates: Updates, v: JsonView)
    requires
        !(v is Object) && !(v is Array),
    ensures
        record(shape, v) is Err,
        updates_value(updates, v) is Err,
{
}

/// A value of the wrong type is refused in words that tell what it is, whole, and what was
/// expected.
pub proof fn law_refusal_tells_the_value_and_what_was_expected(
    v: JsonView,
    named: Seq<char>,
    n: JsonNumberView,
)
    requires
        v is Number ==> v == JsonView::Number(n),
        named == match v {
            JsonView::Null => "null"@,
            JsonView::Bool(b) => if b {
                "boolean `true`"@
            } else {
                "boolean `false`"@
            },
            JsonView::Number(_) => if n.integer is Some || n.unsigned is Some {
                "integer `"@ + n.text + "`"@
            } else {
                "floating point `"@ + n.text + "`"@
            },
            JsonView::Text(s) => "string "@ + debug_text(s),
            JsonView::Array(_) => "sequence"@,
            JsonView::Object(_) => "map"@,
        },
    ensures
        !(v is Text) ==> field_value(FieldKind::Text, v) == Err::<ValueView, Seq<char>>(
            "invalid type: "@ + named + ", expected "@ + "a string"@,
        ),
        !(v is Text) && !(v is Null) ==> field_value(FieldKind::OptionalText, v) == Err::<
            ValueView,
            Seq<char>,
        >("invalid type: "@ + named + ", expected "@ + "a string"@),
        !(v is Bool) ==> field_value(FieldKind::Flag, v) == Err::<ValueView, Seq<char>>(
            "invalid type: "@ + named + ", expected "@ + "a boolean"@,
        ),
        !(v is Array) ==> field_value(FieldKind::IntegerList, v) == Err::<ValueView, Seq<char>>(
            "invalid type: "@ + named + ", expected "@ + "a sequence"@,
        ),
        !(v is Number) || n.integer is None && n.unsigned is None ==> field_value(
            FieldKind::Integer,
            v,
        ) == Err::<ValueView, Seq<char>>("invalid type: "@ + named + ", expected "@ + "i64"@),
        v is Number && n.integer is None && n.unsigned is Some ==> field_value(
            FieldKind::Integer,
            v,
        ) == Err::<ValueView, Seq<char>>("invalid value: "@ + named + ", expected "@ + "i64"@),
        !(v is Object) && !(v is Array) ==> updates_value(Updates::Company, v) == Err::<
            Seq<Option<Seq<char>>>,
            Seq<char>,
        >("invalid type: "@ + named + ", expected "@ + ("struct "@ + "CompanyFieldUpdates"@)),
        !(v is Object) && !(v is Array) ==> updates_value(Updates::Contact, v) == Err::<
            Seq<Option<Seq<char>>>,
            Seq<char>,
        >("invalid type: "@ + named + ", expected "@ + ("struct "@ + "ContactFieldUpdates"@)),
{
}

/// Where a member is the first that is refused, for its value, the refusal of the whole call is
/// that of the value.
pub proof fn law_first_refusal_of_a_value_is_told(
    shape: Shape,
    members: Seq<(Seq<char>, JsonView)>,
    i: int,
    j: int,
    e: Seq<char>,
)
    requires
        0 <= i < members.len(),
        0 <= j < shape_schema(shape).names.len(),
        members[i].0 == shape_schema(shape).names[j],
        forall|h: int| 0 <= h < i ==> (#[trigger] members[h]).0 != members[i].0,
        shape_schema(shape).first_fault(
            entries_of(shape_schema(shape), shape_reads(shape), members.take(i)),
            0,
        ) is None,
        field_value(shape_kinds(shape)[j], members[i].1) == Err::<ValueView, Seq<char>>(e),
    ensures
        record(shape, JsonView::Object(members)) == Err::<Seq<ValueView>, Seq<char>>(e),
{
    lemma_shape(shape);
    let schema = shape_schema(shape);
    let read = shape_reads(shape);
    let entries = entries_of(schema, read, members);
    lemma_position_is(schema, members[i].0, j);
    assert(entries_of(schema, read, members.take(i)) == entries.take(i));
    lemma_first_fault_after(schema, entries, i, 0);
    assert(!has_entry(entries.take(i), j)) by {
        if has_entry(entries.take(i), j) {
            let w = choose|w: int|
                0 <= w < entries.take(i).len() && entry_is_for(#[trigger] entries.take(i)[w], j);
            lemma_position(schema, members[w].0, 0);
            assert(members[w].0 == schema.names[j]);
        }
    }
    assert(read(j, members[i].1) == field_value(shape_kinds(shape)[j], members[i].1));
}

/// The position of a name, where names are distinct.
proof fn lemma_position_is(schema: SchemaView, key: Seq<char>, j: int)
    requires
        0 <= j < schema.names.len(),
        schema.names[j] == key,
        forall|a: int, b: int|
            0 <= a < b < schema.names.len() ==> schema.names[a] != schema.names[b],
    ensures
        schema.position(key) == Some(j),
{
    lemma_position(schema, key, 0);
    let p = schema.position(key)->Some_0;
    if p < j {
        assert(schema.names[p] != schema.names[j]);
    } else if j < p {
        assert(schema.names[j] != schema.names[p]);
    }
}

/// Where a member is the first that is refused, for a parameter that was given before, the refusal
/// says so and names the parameter.
pub proof fn law_second_member_of_a_name_is_refused_by_name(
    shape: Shape,
    members: Seq<(Seq<char>, JsonView)>,
    h: int,
    i: int,
)
    requires
        0 <= h < i < members.len(),
        members[h].0 == members[i].0,
        shape_schema(shape).names.contains(members[i].0),
        shape_schema(shape).first_fault(
            entries_of(shape_schema(shape), shape_reads(shape), members.take(i)),
            0,
        ) is None,
    ensures
        record(shape, JsonView::Object(members)) == Err::<Seq<ValueView>, Seq<char>>(
            "duplicate field "@ + ("`"@ + members[i].0 + "`"@),
        ),
{
    let schema = shape_schema(shape);
    let read = shape_reads(shape);
    let entries = entries_of(schema, read, members);
    lemma_position(schema, members[i].0, 0);
    let j = schema.position(members[i].0)->Some_0;
    assert(entries_of(schema, read, members.take(i)) == entries.take(i));
    lemma_first_fault_after(schema, entries, i, 0);
    assert(entry_is_for(entries.take(i)[h], j));
    assert(has_entry(entries.take(i), j));
}

/// Where no member is refused, the first parameter that must be given and is not is named.
pub proof fn law_first_missing_parameter_is_named(
    shape: Shape,
    members: Seq<(Seq<char>, JsonView)>,
    j: int,
)
    requires
        shape_schema(shape).first_fault(
            entries_of(shape_schema(shape), shape_reads(shape), members),
            0,
        ) is None,
        0 <= j < shape_schema(shape).names.len(),
        field_default(shape_kinds(shape)[j]) is None,
        forall|i: int|
            0 <= i < members.len() ==> (#[trigger] members[i]).0 != shape_schema(shape).names[j],
        forall|k: int|
            0 <= k < j ==> field_default(#[trigger] shape_kinds(shape)[k]) is Some || exists|i: int|
                0 <= i < members.len() && (#[trigger] members[i]).0
                    == shape_schema(shape).names[k],
    ensures
        record(shape, JsonView::Object(members)) == Err::<Seq<ValueView>, Seq<char>>(
            "missing field "@ + ("`"@ + shape_schema(shape).names[j] + "`"@),
        ),
{
    lemma_shape(shape);
    let schema = shape_schema(shape);
    let defaults = shape_defaults(shape);
    let entries = entries_of(schema, shape_reads(shape), members);
    crate::laws::lemma_absent_has_no_value(schema, shape_reads(shape), members, j);
    assert forall|k: int| 0 <= k < j implies #[trigger] filled(defaults, entries, k) is Some by {
        if field_default(shape_kinds(shape)[k]) is None {
            let i = choose|i: int|
                0 <= i < members.len() && (#[trigger] members[i]).0 == schema.names[k];
            lemma_position_is(schema, members[i].0, k);
            crate::laws::lemma_entry_fills_its_field(schema, entries, entries.len() as int, i);
            assert(entries.take(entries.len() as int) == entries);
        }
    }
    lemma_first_missing_is(schema, defaults, entries, 0, j);
}

/// The first field that lacks a value is the one that is missing.
proof fn lemma_first_missing_is<V>(
    schema: SchemaView,
    defaults: Seq<Option<V>>,
    entries: Seq<EntryView<V>>,
    k: int,
    j: int,
)
    requires
        0 <= k <= j < schema.names.len(),
        forall|h: int| k <= h < j ==> #[trigger] filled(defaults, entries, h) is Some,
        filled(defaults, entries, j) is None,
    ensures
        schema.first_missing(defaults, entries, k) == Some(
            "missing field "@ + ("`"@ + schema.names[j] + "`"@),
        ),
    decreases j - k,
{
    if k < j {
        lemma_first_missing_is(schema, defaults, entries, k + 1, j);
    }
}

/// The refusal of an unknown member holds its key, whole, in its words.
pub proof fn law_refusal_holds_the_unknown_key(
    members: Seq<(Seq<char>, JsonView)>,
    key: Seq<char>,
    v: JsonView,
)
    requires
        members == seq![(key, v)],
        key != "contact_id"@,
        key != "fields"@,
        key != "write_mode"@,
    ensures
        record(Shape::UpdateContactFields, JsonView::Object(members)) == Err::<
            Seq<ValueView>,
            Seq<char>,
        >(
            "unknown field "@ + ("`"@ + key + "`"@) + ", expected "@ + ("one of "@ + ("`"@
                + "contact_id"@ + "`"@ + ", "@ + ("`"@ + "fields"@ + "`"@) + ", "@ + ("`"@
                + "write_mode"@ + "`"@))),
        ),
{
    let shape = Shape::UpdateContactFields;
    let schema = shape_schema(shape);
    let read = shape_reads(shape);
    let entries = entries_of(schema, read, members);
    lemma_position(schema, key, 0);
    assert(members[0].0 == key);
    assert(entries[0] == EntryView::<ValueView>::Unknown(key));
    let names = schema.names;
    assert(names.drop_last().drop_last() == seq![names[0]]);
    reveal_with_fuel(crate::record::ticked_list, 3);
    assert(schema.first_fault(entries, 0) == schema.fault(entries, 0));
}

} // verus!
