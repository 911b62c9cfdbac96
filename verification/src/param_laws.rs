//! What each tool's parameters are, in terms of the JSON value that was sent.

use vstd::prelude::*;

use crate::error::DecodeError;
use crate::flexible::{deserialize_flexible_i64, flexible_i64};
use crate::json::{JsonValue, JsonView};
use crate::laws::{
    law_parameter_names_are_distinct, law_update_names_are_distinct, lemma_absent_has_no_value,
    lemma_entry_fills_its_field, lemma_first_fault_none, lemma_first_missing_none,
    lemma_no_member_dropped, lemma_position,
};
use crate::params::{
    BackupVaultParams, CompanyFieldUpdates, CompanyNetworkParams, ContactFieldUpdates,
    EnqueueEnrichmentParams, ListCompaniesNeedingEnrichmentParams,
    ListContactsNeedingEnrichmentParams, MergeCompanyAliasParams, SearchContactsParams,
    UpdateCompanyFieldsParams, UpdateContactFieldParams, UpdateContactFieldsParams,
};
use crate::record::{entry_is_for, filled, has_entry, SchemaView};
use crate::shape::{
    entries_of, field_default, field_value, integer_value, integers, integers_value, no_updates,
    optional_text_value, record, record_of, shape_defaults, shape_kinds, shape_reads, shape_schema,
    updates_defaults, updates_reads, updates_schema, updates_value, Shape, Updates, ValueView,
};

verus! {

// ---- Records --------------------------------------------------------------------------------

/// What holds of the members of an object that a record takes, and of the record's values.
pub(crate) proof fn lemma_taken<V>(
    schema: SchemaView,
    defaults: Seq<Option<V>>,
    read: spec_fn(int, JsonView) -> Result<V, Seq<char>>,
    members: Seq<(Seq<char>, JsonView)>,
    vs: Seq<V>,
)
    requires
        record_of(schema, defaults, read, JsonView::Object(members)) == Ok::<Seq<V>, Seq<char>>(vs),
        forall|a: int, b: int|
            0 <= a < b < schema.names.len() ==> schema.names[a] != schema.names[b],
    ensures
        vs.len() == schema.names.len(),
        forall|i: int, j: int|
            #![trigger members[i], schema.names[j]]
            0 <= i < members.len() && 0 <= j < schema.names.len() && members[i].0
                == schema.names[j] ==> read(j, members[i].1) == Ok::<V, Seq<char>>(vs[j]),
        forall|i: int, k: int|
            #![trigger members[i], members[k]]
            0 <= i < k < members.len() && schema.names.contains(members[i].0) ==> members[i].0
                != members[k].0,
        forall|j: int|
            0 <= j < schema.names.len() && (forall|i: int|
                0 <= i < members.len() ==> (#[trigger] members[i]).0 != schema.names[j])
                ==> defaults[j] == Some(#[trigger] vs[j]),
        schema.denies_unknown ==> forall|i: int|
            0 <= i < members.len() ==> schema.names.contains((#[trigger] members[i]).0),
{
    let entries = entries_of(schema, read, members);
    schema.lemma_no_fault(entries, 0);
    schema.lemma_none_missing(defaults, entries, 0);
    assert forall|i: int, j: int|
        #![trigger members[i], schema.names[j]]
        0 <= i < members.len() && 0 <= j < schema.names.len() && members[i].0
            == schema.names[j] implies read(j, members[i].1) == Ok::<V, Seq<char>>(vs[j]) by {
        lemma_position(schema, members[i].0, 0);
        let p = schema.position(members[i].0)->Some_0;
        assert(p == j) by {
            if p < j {
                assert(schema.names[p] != schema.names[j]);
            } else if j < p {
                assert(schema.names[j] != schema.names[p]);
            }
        }
        lemma_no_member_dropped(schema, defaults, read, members, i);
    }
    assert forall|i: int, k: int|
        #![trigger members[i], members[k]]
        0 <= i < k < members.len() && schema.names.contains(members[i].0) implies members[i].0
        != members[k].0 by {
        lemma_position(schema, members[i].0, 0);
        if members[i].0 == members[k].0 {
            let j = schema.position(members[i].0)->Some_0;
            assert(schema.fault(entries, k) is None);
            assert(entry_is_for(entries.take(k)[i], j));
            assert(has_entry(entries.take(k), j));
        }
    }
    assert forall|j: int|
        0 <= j < schema.names.len() && (forall|i: int|
            0 <= i < members.len() ==> (
            #[trigger] members[i]).0 != schema.names[j]) implies defaults[j]
        == Some(#[trigger] vs[j]) by {
        lemma_absent_has_no_value(schema, read, members, j);
        assert(filled(defaults, entries, j) is Some);
    }
    if schema.denies_unknown {
        assert forall|i: int| 0 <= i < members.len() implies schema.names.contains(
            (#[trigger] members[i]).0,
        ) by {
            assert(schema.fault(entries, i) is None);
            lemma_position(schema, members[i].0, 0);
        }
    }
}

/// When a record takes the members of an object.
pub(crate) proof fn lemma_takes<V>(
    schema: SchemaView,
    defaults: Seq<Option<V>>,
    read: spec_fn(int, JsonView) -> Result<V, Seq<char>>,
    members: Seq<(Seq<char>, JsonView)>,
)
    requires
        defaults.len() == schema.names.len(),
        forall|a: int, b: int|
            0 <= a < b < schema.names.len() ==> schema.names[a] != schema.names[b],
        forall|i: int, j: int|
            #![trigger members[i], schema.names[j]]
            0 <= i < members.len() && 0 <= j < schema.names.len() && members[i].0
                == schema.names[j] ==> read(j, members[i].1) is Ok,
        forall|i: int, k: int|
            #![trigger members[i], members[k]]
            0 <= i < k < members.len() && schema.names.contains(members[i].0) ==> members[i].0
                != members[k].0,
        forall|j: int|
            #![trigger defaults[j]]
            0 <= j < schema.names.len() && defaults[j] is None ==> exists|i: int|
                0 <= i < members.len() && (#[trigger] members[i]).0 == schema.names[j],
        schema.denies_unknown ==> forall|i: int|
            0 <= i < members.len() ==> schema.names.contains((#[trigger] members[i]).0),
    ensures
        record_of(schema, defaults, read, JsonView::Object(members)) is Ok,
{
    let entries = entries_of(schema, read, members);
    assert forall|k: int| 0 <= k < entries.len()
        implies #[trigger] schema.fault(entries, k) is None by {
        lemma_position(schema, members[k].0, 0);
        if let Some(j) = schema.position(members[k].0) {
            assert(schema.names[j] == members[k].0);
            if has_entry(entries.take(k), j) {
                let w = choose|w: int|
                    0 <= w < entries.take(k).len()
                        && entry_is_for(#[trigger] entries.take(k)[w], j);
                lemma_position(schema, members[w].0, 0);
                assert(members[w].0 == members[k].0);
            }
        } else if schema.denies_unknown {
            assert(schema.names.contains(members[k].0));
        }
    }
    lemma_first_fault_none(schema, entries, 0);
    assert forall|j: int| 0 <= j < schema.names.len() implies #[trigger] filled(
        defaults,
        entries,
        j,
    ) is Some by {
        if defaults[j] is None {
            let i = choose|i: int|
                0 <= i < members.len() && (#[trigger] members[i]).0 == schema.names[j];
            lemma_position(schema, members[i].0, 0);
            let p = schema.position(members[i].0)->Some_0;
            assert(p == j) by {
                if p < j {
                    assert(schema.names[p] != schema.names[j]);
                } else if j < p {
                    assert(schema.names[j] != schema.names[p]);
                }
            }
            lemma_entry_fills_its_field(schema, entries, entries.len() as int, i);
            assert(entries.take(entries.len() as int) == entries);
        }
    }
    lemma_first_missing_none(schema, defaults, entries, 0);
}

/// The names of a tool's parameters are distinct, and each has a kind.
pub(crate) proof fn lemma_shape(shape: Shape)
    ensures
        shape_kinds(shape).len() == shape_schema(shape).names.len(),
        shape_defaults(shape).len() == shape_schema(shape).names.len(),
        forall|a: int, b: int|
            0 <= a < b < shape_schema(shape).names.len() ==> shape_schema(shape).names[a]
                != shape_schema(shape).names[b],
{
    assert forall|a: int, b: int|
        0 <= a < b < shape_schema(shape).names.len() implies shape_schema(shape).names[a]
        != shape_schema(shape).names[b] by {
        law_parameter_names_are_distinct(shape, a, b);
    }
}

/// The names of a record of updates are distinct.
pub(crate) proof fn lemma_updates(updates: Updates)
    ensures
        updates_defaults(updates).len() == updates_schema(updates).names.len(),
        forall|a: int, b: int|
            0 <= a < b < updates_schema(updates).names.len() ==> updates_schema(updates).names[a]
                != updates_schema(updates).names[b],
{
    assert forall|a: int, b: int|
        0 <= a < b < updates_schema(updates).names.len() implies updates_schema(updates).names[a]
        != updates_schema(updates).names[b] by {
        law_update_names_are_distinct(updates, a, b);
    }
}

/// A list of integers is as long as the array, and each is what its item gives.
proof fn lemma_integers(items: Seq<JsonView>)
    ensures
        integers(items) matches Ok(ns) ==> {
            &&& ns.len() == items.len()
            &&& forall|k: int|
                0 <= k < items.len() ==> integer_value(#[trigger] items[k]) == Ok::<i64, Seq<char>>(
                    ns[k],
                )
        },
        (forall|k: int| 0 <= k < items.len() ==> integer_value(#[trigger] items[k]) is Ok)
            ==> integers(items) is Ok,
    decreases items.len(),
{
    if items.len() > 0 {
        let rest = items.drop_last();
        lemma_integers(rest);
        if integers(items) is Ok {
            let ns = integers(items)->Ok_0;
            assert forall|k: int| 0 <= k < items.len() implies integer_value(#[trigger] items[k])
                == Ok::<i64, Seq<char>>(ns[k]) by {
                if k < rest.len() {
                    assert(rest[k] == items[k]);
                }
            }
        }
        if forall|k: int| 0 <= k < items.len() ==> integer_value(#[trigger] items[k]) is Ok {
            assert forall|k: int| 0 <= k < rest.len() implies integer_value(
                #[trigger] rest[k],
            ) is Ok by {
                assert(rest[k] == items[k]);
            }
            assert(integer_value(items[items.len() - 1]) is Ok);
        }
    }
}

/// What an object of the library stands for, member by member.
proof fn lemma_object_view(members: Vec<(String, JsonValue)>)
    ensures
        JsonValue::Object(members)@ is Object,
        JsonValue::Object(members)@->Object_0.len() == members@.len(),
        forall|i: int|
            0 <= i < members@.len() ==> #[trigger] JsonValue::Object(members)@->Object_0[i] == (
                members@[i].0@,
                members@[i].1@,
            ),
{
}

/// What a tool's parameters hold of the members of an object that is taken, and of the members.
proof fn lemma_sent(shape: Shape, members: Vec<(String, JsonValue)>, vs: Seq<ValueView>)
    requires
        record(shape, JsonValue::Object(members)@) == Ok::<Seq<ValueView>, Seq<char>>(vs),
    ensures
        vs.len() == shape_schema(shape).names.len(),
        forall|i: int, j: int|
            #![trigger members@[i], shape_schema(shape).names[j]]
            0 <= i < members@.len() && 0 <= j < vs.len() && members@[i].0@ == shape_schema(
                shape,
            ).names[j] ==> field_value(shape_kinds(shape)[j], members@[i].1@) == Ok::<
                ValueView,
                Seq<char>,
            >(vs[j]),
        forall|j: int|
            #![trigger shape_schema(shape).names[j]]
            0 <= j < vs.len() && (forall|i: int|
                0 <= i < members@.len() ==> (#[trigger] members@[i]).0@ != shape_schema(
                    shape,
                ).names[j]) ==> field_default(shape_kinds(shape)[j]) == Some(vs[j]),
        forall|i: int, k: int|
            #![trigger members@[i], members@[k]]
            0 <= i < k < members@.len() && shape_schema(shape).names.contains(members@[i].0@)
                ==> members@[i].0@ != members@[k].0@,
        shape_schema(shape).denies_unknown ==> forall|i: int|
            0 <= i < members@.len() ==> shape_schema(shape).names.contains(
                (#[trigger] members@[i]).0@,
            ),
{
    let schema = shape_schema(shape);
    let ms = JsonValue::Object(members)@->Object_0;
    lemma_object_view(members);
    lemma_shape(shape);
    lemma_taken(schema, shape_defaults(shape), shape_reads(shape), ms, vs);
    assert forall|i: int, j: int|
        #![trigger members@[i], schema.names[j]]
        0 <= i < members@.len() && 0 <= j < vs.len() && members@[i].0@
            == schema.names[j] implies field_value(shape_kinds(shape)[j], members@[i].1@) == Ok::<
        ValueView,
        Seq<char>,
    >(vs[j]) by {
        assert(ms[i] == (members@[i].0@, members@[i].1@));
        assert(shape_reads(shape)(j, ms[i].1) == Ok::<ValueView, Seq<char>>(vs[j]));
    }
    assert forall|j: int|
        #![trigger schema.names[j]]
        0 <= j < vs.len() && (forall|i: int|
            0 <= i < members@.len() ==> (#[trigger] members@[i]).0@
                != schema.names[j]) implies field_default(shape_kinds(shape)[j]) == Some(vs[j]) by {
        assert forall|i: int| 0 <= i < ms.len() implies (#[trigger] ms[i]).0 != schema.names[j] by {
            assert(members@[i].0@ != schema.names[j]);
        }
        assert(shape_defaults(shape)[j] == Some(vs[j]));
    }
    assert forall|i: int, k: int|
        #![trigger members@[i], members@[k]]
        0 <= i < k < members@.len() && schema.names.contains(members@[i].0@) implies members@[i].0@
        != members@[k].0@ by {
        assert(ms[i].0 != ms[k].0);
    }
    assert forall|i: int| schema.denies_unknown && 0 <= i < members@.len()
        implies schema.names.contains(
        (#[trigger] members@[i]).0@,
    ) by {
        assert(schema.names.contains(ms[i].0));
    }
}

/// When a tool takes the members of an object as its parameters.
proof fn lemma_is_taken(shape: Shape, members: Vec<(String, JsonValue)>)
    requires
        forall|i: int, j: int|
            #![trigger members@[i], shape_schema(shape).names[j]]
            0 <= i < members@.len() && 0 <= j < shape_schema(shape).names.len() && members@[i].0@
                == shape_schema(shape).names[j] ==> field_value(
                shape_kinds(shape)[j],
                members@[i].1@,
            ) is Ok,
        forall|i: int, k: int|
            #![trigger members@[i], members@[k]]
            0 <= i < k < members@.len() && shape_schema(shape).names.contains(members@[i].0@)
                ==> members@[i].0@ != members@[k].0@,
        forall|j: int|
            0 <= j < shape_schema(shape).names.len() && field_default(
                #[trigger] shape_kinds(shape)[j],
            ) is None ==> exists|i: int|
                0 <= i < members@.len() && (#[trigger] members@[i]).0@ == shape_schema(
                    shape,
                ).names[j],
        shape_schema(shape).denies_unknown ==> forall|i: int|
            0 <= i < members@.len() ==> shape_schema(shape).names.contains(
                (#[trigger] members@[i]).0@,
            ),
    ensures
        record(shape, JsonValue::Object(members)@) is Ok,
{
    let schema = shape_schema(shape);
    let reads = shape_reads(shape);
    let defaults = shape_defaults(shape);
    let ms = JsonValue::Object(members)@->Object_0;
    lemma_object_view(members);
    lemma_shape(shape);
    assert forall|i: int, j: int|
        #![trigger ms[i], schema.names[j]]
        0 <= i < ms.len() && 0 <= j < schema.names.len() && ms[i].0 == schema.names[j]
            implies reads(
        j,
        ms[i].1,
    ) is Ok by {
        assert(ms[i] == (members@[i].0@, members@[i].1@));
        assert(reads(j, ms[i].1) == field_value(shape_kinds(shape)[j], ms[i].1));
    }
    assert forall|i: int, k: int|
        #![trigger ms[i], ms[k]]
        0 <= i < k < ms.len() && schema.names.contains(ms[i].0) implies ms[i].0 != ms[k].0 by {
        assert(members@[i].0@ != members@[k].0@);
    }
    assert forall|j: int|
        #![trigger defaults[j]]
        0 <= j < schema.names.len() && defaults[j] is None implies exists|i: int|
        0 <= i < ms.len() && (#[trigger] ms[i]).0 == schema.names[j] by {
        assert(field_default(shape_kinds(shape)[j]) is None);
        let i = choose|i: int| 0 <= i < members@.len() && (#[trigger] members@[i]).0@
            == schema.names[j];
        assert(ms[i].0 == schema.names[j]);
    }
    assert forall|i: int| schema.denies_unknown && 0 <= i < ms.len() implies schema.names.contains(
        (#[trigger] ms[i]).0,
    ) by {
        assert(schema.names.contains(members@[i].0@));
    }
    lemma_takes(schema, defaults, reads, ms);
}

// ---- The tools ------------------------------------------------------------------------------

/// The parameters of a search hold what was sent under their names, whole; one that nothing was
/// sent for has its default, where it has one, and must be sent where it has none.
pub proof fn law_search_holds_what_was_sent(
    members: Vec<(String, JsonValue)>,
    p: SearchContactsParams,
)
    requires
        call_ensures(
            SearchContactsParams::decode,
            (&JsonValue::Object(members),),
            Ok::<SearchContactsParams, DecodeError>(p),
        ),
    ensures
        forall|i: int|
            0 <= i < members@.len() && (#[trigger] members@[i]).0@ == "query"@ ==> (
            members@[i].1 matches JsonValue::Text(s) && p.query@ == s@),
        exists|i: int| 0 <= i < members@.len() && (#[trigger] members@[i]).0@ == "query"@,
        forall|i: int|
            0 <= i < members@.len() && (#[trigger] members@[i]).0@ == "status"@ ==> (
            match members@[i].1 {
                    JsonValue::Null => p.status is None,
                    JsonValue::Text(s) => p.status matches Some(t) && t@ == s@,
                    _ => false,
                }),
        (forall|i: int| 0 <= i < members@.len() ==> (#[trigger] members@[i]).0@ != "status"@)
            ==> p.status is None,
        forall|i: int|
            0 <= i < members@.len() && (#[trigger] members@[i]).0@ == "limit"@ ==> (
            forall|read: Result<Option<i64>, DecodeError>| #[trigger]
                    call_ensures(deserialize_flexible_i64, (&members@[i].1,), read)
                        ==> read == Ok::<
                        Option<i64>,
                        DecodeError,
                    >(p.limit)),
        (forall|i: int| 0 <= i < members@.len() ==> (#[trigger] members@[i]).0@ != "limit"@)
            ==> p.limit is None,
        forall|i: int|
            0 <= i < members@.len() && (#[trigger] members@[i]).0@ == "offset"@ ==> (
            forall|read: Result<Option<i64>, DecodeError>| #[trigger]
                    call_ensures(deserialize_flexible_i64, (&members@[i].1,), read)
                        ==> read == Ok::<
                        Option<i64>,
                        DecodeError,
                    >(p.offset)),
        (forall|i: int| 0 <= i < members@.len() ==> (#[trigger] members@[i]).0@ != "offset"@)
            ==> p.offset is None,
{
    let shape = Shape::SearchContacts;
    let names = shape_schema(shape).names;
    let vs = p.deep_view();
    lemma_sent(shape, members, vs);
    assert(names[0] == "query"@);
    assert forall|i: int| 0 <= i < members@.len() && (#[trigger] members@[i]).0@
        == "query"@ implies (members@[i].1 matches JsonValue::Text(s) && p.query@ == s@) by {
        assert(field_value(shape_kinds(shape)[0], members@[i].1@) == Ok::<ValueView, Seq<char>>(
            vs[0],
        ));
    }
    assert(names[1] == "status"@);
    assert forall|i: int| 0 <= i < members@.len() && (#[trigger] members@[i]).0@
        == "status"@ implies (match members@[i].1 {
                    JsonValue::Null => p.status is None,
                    JsonValue::Text(s) => p.status matches Some(t) && t@ == s@,
                    _ => false,
                }) by {
        assert(field_value(shape_kinds(shape)[1], members@[i].1@) == Ok::<ValueView, Seq<char>>(
            vs[1],
        ));
    }
    assert(names[2] == "limit"@);
    assert forall|i: int| 0 <= i < members@.len() && (#[trigger] members@[i]).0@
        == "limit"@ implies (forall|read: Result<Option<i64>, DecodeError>| #[trigger]
                    call_ensures(deserialize_flexible_i64, (&members@[i].1,), read)
                        ==> read == Ok::<
                        Option<i64>,
                        DecodeError,
                    >(p.limit)) by {
        assert(field_value(shape_kinds(shape)[2], members@[i].1@) == Ok::<ValueView, Seq<char>>(
            vs[2],
        ));
    }
    assert(names[3] == "offset"@);
    assert forall|i: int| 0 <= i < members@.len() && (#[trigger] members@[i]).0@
        == "offset"@ implies (forall|read: Result<Option<i64>, DecodeError>| #[trigger]
                    call_ensures(deserialize_flexible_i64, (&members@[i].1,), read)
                        ==> read == Ok::<
                        Option<i64>,
                        DecodeError,
                    >(p.offset)) by {
        assert(field_value(shape_kinds(shape)[3], members@[i].1@) == Ok::<ValueView, Seq<char>>(
            vs[3],
        ));
    }
}

/// Where an object is taken as the parameters of a search, none of them is given twice.
pub proof fn law_search_is_given_each_parameter_once(
    members: Vec<(String, JsonValue)>,
    p: SearchContactsParams,
    names: Seq<Seq<char>>,
)
    requires
        call_ensures(
            SearchContactsParams::decode,
            (&JsonValue::Object(members),),
            Ok::<SearchContactsParams, DecodeError>(p),
        ),
        names == seq!["query"@, "status"@, "limit"@, "offset"@],
    ensures
        forall|i: int, k: int|
            #![trigger members@[i], members@[k]]
            0 <= i < k < members@.len() && names.contains(members@[i].0@) ==> members@[i].0@
                != members@[k].0@,
{
    lemma_sent(Shape::SearchContacts, members, p.deep_view());
}

/// An object is taken as the parameters of a search where each of them that must be given is, none
/// is given twice, and each is of its kind, whatever its length or size, whatever other members it
/// has.
pub proof fn law_parameters_of_a_search_are_taken(
    members: Vec<(String, JsonValue)>,
    r: Result<SearchContactsParams, DecodeError>,
    names: Seq<Seq<char>>,
)
    requires
        call_ensures(SearchContactsParams::decode, (&JsonValue::Object(members),), r),
        names == seq!["query"@, "status"@, "limit"@, "offset"@],
        forall|i: int|
            0 <= i < members@.len() && (#[trigger] members@[i]).0@ == "query"@ ==> (
            members@[i].1 is Text),
        exists|i: int| 0 <= i < members@.len() && (#[trigger] members@[i]).0@ == "query"@,
        forall|i: int|
            0 <= i < members@.len() && (#[trigger] members@[i]).0@ == "status"@ ==> (
            members@[i].1 is Text || members@[i].1 is Null),
        forall|i: int|
            0 <= i < members@.len() && (#[trigger] members@[i]).0@ == "limit"@ ==> (
            exists|read: Result<Option<i64>, DecodeError>| #[trigger]
                call_ensures(deserialize_flexible_i64, (&members@[i].1,), read) && read is Ok),
        forall|i: int|
            0 <= i < members@.len() && (#[trigger] members@[i]).0@ == "offset"@ ==> (
            exists|read: Result<Option<i64>, DecodeError>| #[trigger]
                call_ensures(deserialize_flexible_i64, (&members@[i].1,), read) && read is Ok),
        forall|i: int, k: int|
            #![trigger members@[i], members@[k]]
            0 <= i < k < members@.len() && names.contains(members@[i].0@) ==> members@[i].0@
                != members@[k].0@,
    ensures
        r is Ok,
{
    let shape = Shape::SearchContacts;
    assert forall|i: int, j: int|
        #![trigger members@[i], shape_schema(shape).names[j]]
        0 <= i < members@.len() && 0 <= j < shape_schema(shape).names.len() && members@[i].0@
            == shape_schema(shape).names[j] implies field_value(
        shape_kinds(shape)[j],
        members@[i].1@,
    ) is Ok by {
        if j == 0 {
            assert(members@[i].0@ == "query"@);
        }
        if j == 1 {
            assert(members@[i].0@ == "status"@);
        }
        if j == 2 {
            assert(members@[i].0@ == "limit"@);
            assert(flexible_i64(members@[i].1@) is Ok);
        }
        if j == 3 {
            assert(members@[i].0@ == "offset"@);
            assert(flexible_i64(members@[i].1@) is Ok);
        }
    }
    lemma_is_taken(shape, members);
}

/// The parameters of a network hold what was sent under their names, whole; one that nothing was
/// sent for has its default, where it has one, and must be sent where it has none.
pub proof fn law_network_holds_what_was_sent(
    members: Vec<(String, JsonValue)>,
    p: CompanyNetworkParams,
)
    requires
        call_ensures(
            CompanyNetworkParams::decode,
            (&JsonValue::Object(members),),
            Ok::<CompanyNetworkParams, DecodeError>(p),
        ),
    ensures
        forall|i: int|
            0 <= i < members@.len() && (#[trigger] members@[i]).0@ == "name"@ ==> (
            members@[i].1 matches JsonValue::Text(s) && p.name@ == s@),
        exists|i: int| 0 <= i < members@.len() && (#[trigger] members@[i]).0@ == "name"@,
{
    let shape = Shape::CompanyNetwork;
    let names = shape_schema(shape).names;
    let vs = p.deep_view();
    lemma_sent(shape, members, vs);
    assert(names[0] == "name"@);
    assert forall|i: int| 0 <= i < members@.len() && (#[trigger] members@[i]).0@
        == "name"@ implies (members@[i].1 matches JsonValue::Text(s) && p.name@ == s@) by {
        assert(field_value(shape_kinds(shape)[0], members@[i].1@) == Ok::<ValueView, Seq<char>>(
            vs[0],
        ));
    }
}

/// Where an object is taken as the parameters of a network, none of them is given twice.
pub proof fn law_network_is_given_each_parameter_once(
    members: Vec<(String, JsonValue)>,
    p: CompanyNetworkParams,
    names: Seq<Seq<char>>,
)
    requires
        call_ensures(
            CompanyNetworkParams::decode,
            (&JsonValue::Object(members),),
            Ok::<CompanyNetworkParams, DecodeError>(p),
        ),
        names == seq!["name"@],
    ensures
        forall|i: int, k: int|
            #![trigger members@[i], members@[k]]
            0 <= i < k < members@.len() && names.contains(members@[i].0@) ==> members@[i].0@
                != members@[k].0@,
{
    lemma_sent(Shape::CompanyNetwork, members, p.deep_view());
}

/// An object is taken as the parameters of a network where each of them that must be given is, none
/// is given twice, and each is of its kind, whatever its length or size, whatever other members it
/// has.
pub proof fn law_parameters_of_a_network_are_taken(
    members: Vec<(String, JsonValue)>,
    r: Result<CompanyNetworkParams, DecodeError>,
    names: Seq<Seq<char>>,
)
    requires
        call_ensures(CompanyNetworkParams::decode, (&JsonValue::Object(members),), r),
        names == seq!["name"@],
        forall|i: int|
            0 <= i < members@.len() && (#[trigger] members@[i]).0@ == "name"@ ==> (
            members@[i].1 is Text),
        exists|i: int| 0 <= i < members@.len() && (#[trigger] members@[i]).0@ == "name"@,
        forall|i: int, k: int|
            #![trigger members@[i], members@[k]]
            0 <= i < k < members@.len() && names.contains(members@[i].0@) ==> members@[i].0@
                != members@[k].0@,
    ensures
        r is Ok,
{
    let shape = Shape::CompanyNetwork;
    assert forall|i: int, j: int|
        #![trigger members@[i], shape_schema(shape).names[j]]
        0 <= i < members@.len() && 0 <= j < shape_schema(shape).names.len() && members@[i].0@
            == shape_schema(shape).names[j] implies field_value(
        shape_kinds(shape)[j],
        members@[i].1@,
    ) is Ok by {
        if j == 0 {
            assert(members@[i].0@ == "name"@);
        }
    }
    lemma_is_taken(shape, members);
}

/// The parameters of a contact field update hold what was sent under their names, whole; one that
/// nothing was sent for has its default, where it has one, and must be sent where it has none.
pub proof fn law_contact_field_update_holds_what_was_sent(
    members: Vec<(String, JsonValue)>,
    p: UpdateContactFieldParams,
)
    requires
        call_ensures(
            UpdateContactFieldParams::decode,
            (&JsonValue::Object(members),),
            Ok::<UpdateContactFieldParams, DecodeError>(p),
        ),
    ensures
        forall|i: int|
            0 <= i < members@.len() && (#[trigger] members@[i]).0@ == "contact_id"@ ==> (
            members@[i].1 matches JsonValue::Number(n) && n.integer == Some(p.contact_id)),
        exists|i: int| 0 <= i < members@.len() && (#[trigger] members@[i]).0@ == "contact_id"@,
        forall|i: int|
            0 <= i < members@.len() && (#[trigger] members@[i]).0@ == "field"@ ==> (
            members@[i].1 matches JsonValue::Text(s) && p.field@ == s@),
        exists|i: int| 0 <= i < members@.len() && (#[trigger] members@[i]).0@ == "field"@,
        forall|i: int|
            0 <= i < members@.len() && (#[trigger] members@[i]).0@ == "value"@ ==> (
            members@[i].1 matches JsonValue::Text(s) && p.value@ == s@),
        exists|i: int| 0 <= i < members@.len() && (#[trigger] members@[i]).0@ == "value"@,
{
    let shape = Shape::UpdateContactField;
    let names = shape_schema(shape).names;
    let vs = p.deep_view();
    lemma_sent(shape, members, vs);
    assert(names[0] == "contact_id"@);
    assert forall|i: int| 0 <= i < members@.len() && (#[trigger] members@[i]).0@
        == "contact_id"@ implies (
        members@[i].1 matches JsonValue::Number(n) && n.integer == Some(p.contact_id)) by {
        assert(field_value(shape_kinds(shape)[0], members@[i].1@) == Ok::<ValueView, Seq<char>>(
            vs[0],
        ));
    }
    assert(names[1] == "field"@);
    assert forall|i: int| 0 <= i < members@.len() && (#[trigger] members@[i]).0@
        == "field"@ implies (members@[i].1 matches JsonValue::Text(s) && p.field@ == s@) by {
        assert(field_value(shape_kinds(shape)[1], members@[i].1@) == Ok::<ValueView, Seq<char>>(
            vs[1],
        ));
    }
    assert(names[2] == "value"@);
    assert forall|i: int| 0 <= i < members@.len() && (#[trigger] members@[i]).0@
        == "value"@ implies (members@[i].1 matches JsonValue::Text(s) && p.value@ == s@) by {
        assert(field_value(shape_kinds(shape)[2], members@[i].1@) == Ok::<ValueView, Seq<char>>(
            vs[2],
        ));
    }
}

/// Where an object is taken as the parameters of a contact field update, none of them is given
/// twice.
pub proof fn law_contact_field_update_is_given_each_parameter_once(
    members: Vec<(String, JsonValue)>,
    p: UpdateContactFieldParams,
    names: Seq<Seq<char>>,
)
    requires
        call_ensures(
            UpdateContactFieldParams::decode,
            (&JsonValue::Object(members),),
            Ok::<UpdateContactFieldParams, DecodeError>(p),
        ),
        names == seq!["contact_id"@, "field"@, "value"@],
    ensures
        forall|i: int, k: int|
            #![trigger members@[i], members@[k]]
            0 <= i < k < members@.len() && names.contains(members@[i].0@) ==> members@[i].0@
                != members@[k].0@,
{
    lemma_sent(Shape::UpdateContactField, members, p.deep_view());
}

/// An object is taken as the parameters of a contact field update where each of them that must be
/// given is, none is given twice, and each is of its kind, whatever its length or size, whatever
/// other members it has.
pub proof fn law_parameters_of_a_contact_field_update_are_taken(
    members: Vec<(String, JsonValue)>,
    r: Result<UpdateContactFieldParams, DecodeError>,
    names: Seq<Seq<char>>,
)
    requires
        call_ensures(UpdateContactFieldParams::decode, (&JsonValue::Object(members),), r),
        names == seq!["contact_id"@, "field"@, "value"@],
        forall|i: int|
            0 <= i < members@.len() && (#[trigger] members@[i]).0@ == "contact_id"@ ==> (
            members@[i].1 matches JsonValue::Number(n) && n.integer is Some),
        exists|i: int| 0 <= i < members@.len() && (#[trigger] members@[i]).0@ == "contact_id"@,
        forall|i: int|
            0 <= i < members@.len() && (#[trigger] members@[i]).0@ == "field"@ ==> (
            members@[i].1 is Text),
        exists|i: int| 0 <= i < members@.len() && (#[trigger] members@[i]).0@ == "field"@,
        forall|i: int|
            0 <= i < members@.len() && (#[trigger] members@[i]).0@ == "value"@ ==> (
            members@[i].1 is Text),
        exists|i: int| 0 <= i < members@.len() && (#[trigger] members@[i]).0@ == "value"@,
        forall|i: int, k: int|
            #![trigger members@[i], members@[k]]
            0 <= i < k < members@.len() && names.contains(members@[i].0@) ==> members@[i].0@
                != members@[k].0@,
    ensures
        r is Ok,
{
    let shape = Shape::UpdateContactField;
    assert forall|i: int, j: int|
        #![trigger members@[i], shape_schema(shape).names[j]]
        0 <= i < members@.len() && 0 <= j < shape_schema(shape).names.len() && members@[i].0@
            == shape_schema(shape).names[j] implies field_value(
        shape_kinds(shape)[j],
        members@[i].1@,
    ) is Ok by {
        if j == 0 {
            assert(members@[i].0@ == "contact_id"@);
        }
        if j == 1 {
            assert(members@[i].0@ == "field"@);
        }
        if j == 2 {
            assert(members@[i].0@ == "value"@);
        }
    }
    lemma_is_taken(shape, members);
}

/// The parameters of a merge hold what was sent under their names, whole; one that nothing was
/// sent for has its default, where it has one, and must be sent where it has none.
pub proof fn law_merge_holds_what_was_sent(
    members: Vec<(String, JsonValue)>,
    p: MergeCompanyAliasParams,
)
    requires
        call_ensures(
            MergeCompanyAliasParams::decode,
            (&JsonValue::Object(members),),
            Ok::<MergeCompanyAliasParams, DecodeError>(p),
        ),
    ensures
        forall|i: int|
            0 <= i < members@.len() && (#[trigger] members@[i]).0@ == "company_id"@ ==> (
            members@[i].1 matches JsonValue::Number(n) && n.integer == Some(p.company_id)),
        exists|i: int| 0 <= i < members@.len() && (#[trigger] members@[i]).0@ == "company_id"@,
        forall|i: int|
            0 <= i < members@.len() && (#[trigger] members@[i]).0@ == "new_name"@ ==> (
            members@[i].1 matches JsonValue::Text(s) && p.new_name@ == s@),
        exists|i: int| 0 <= i < members@.len() && (#[trigger] members@[i]).0@ == "new_name"@,
{
    let shape = Shape::MergeCompanyAlias;
    let names = shape_schema(shape).names;
    let vs = p.deep_view();
    lemma_sent(shape, members, vs);
    assert(names[0] == "company_id"@);
    assert forall|i: int| 0 <= i < members@.len() && (#[trigger] members@[i]).0@
        == "company_id"@ implies (
        members@[i].1 matches JsonValue::Number(n) && n.integer == Some(p.company_id)) by {
        assert(field_value(shape_kinds(shape)[0], members@[i].1@) == Ok::<ValueView, Seq<char>>(
            vs[0],
        ));
    }
    assert(names[1] == "new_name"@);
    assert forall|i: int| 0 <= i < members@.len() && (#[trigger] members@[i]).0@
        == "new_name"@ implies (members@[i].1 matches JsonValue::Text(s) && p.new_name@ == s@) by {
        assert(field_value(shape_kinds(shape)[1], members@[i].1@) == Ok::<ValueView, Seq<char>>(
            vs[1],
        ));
    }
}

/// Where an object is taken as the parameters of a merge, none of them is given twice.
pub proof fn law_merge_is_given_each_parameter_once(
    members: Vec<(String, JsonValue)>,
    p: MergeCompanyAliasParams,
    names: Seq<Seq<char>>,
)
    requires
        call_ensures(
            MergeCompanyAliasParams::decode,
            (&JsonValue::Object(members),),
            Ok::<MergeCompanyAliasParams, DecodeError>(p),
        ),
        names == seq!["company_id"@, "new_name"@],
    ensures
        forall|i: int, k: int|
            #![trigger members@[i], members@[k]]
            0 <= i < k < members@.len() && names.contains(members@[i].0@) ==> members@[i].0@
                != members@[k].0@,
{
    lemma_sent(Shape::MergeCompanyAlias, members, p.deep_view());
}

/// An object is taken as the parameters of a merge where each of them that must be given is, none
/// is given twice, and each is of its kind, whatever its length or size, whatever other members it
/// has.
pub proof fn law_parameters_of_a_merge_are_taken(
    members: Vec<(String, JsonValue)>,
    r: Result<MergeCompanyAliasParams, DecodeError>,
    names: Seq<Seq<char>>,
)
    requires
        call_ensures(MergeCompanyAliasParams::decode, (&JsonValue::Object(members),), r),
        names == seq!["company_id"@, "new_name"@],
        forall|i: int|
            0 <= i < members@.len() && (#[trigger] members@[i]).0@ == "company_id"@ ==> (
            members@[i].1 matches JsonValue::Number(n) && n.integer is Some),
        exists|i: int| 0 <= i < members@.len() && (#[trigger] members@[i]).0@ == "company_id"@,
        forall|i: int|
            0 <= i < members@.len() && (#[trigger] members@[i]).0@ == "new_name"@ ==> (
            members@[i].1 is Text),
        exists|i: int| 0 <= i < members@.len() && (#[trigger] members@[i]).0@ == "new_name"@,
        forall|i: int, k: int|
            #![trigger members@[i], members@[k]]
            0 <= i < k < members@.len() && names.contains(members@[i].0@) ==> members@[i].0@
                != members@[k].0@,
    ensures
        r is Ok,
{
    let shape = Shape::MergeCompanyAlias;
    assert forall|i: int, j: int|
        #![trigger members@[i], shape_schema(shape).names[j]]
        0 <= i < members@.len() && 0 <= j < shape_schema(shape).names.len() && members@[i].0@
            == shape_schema(shape).names[j] implies field_value(
        shape_kinds(shape)[j],
        members@[i].1@,
    ) is Ok by {
        if j == 0 {
            assert(members@[i].0@ == "company_id"@);
        }
        if j == 1 {
            assert(members@[i].0@ == "new_name"@);
        }
    }
    lemma_is_taken(shape, members);
}

/// The parameters of a follow up hold what was sent under their names, whole; one that nothing was
/// sent for has its default, where it has one, and must be sent where it has none.
pub proof fn law_follow_up_holds_what_was_sent(
    members: Vec<(String, JsonValue)>,
    p: EnqueueEnrichmentParams,
)
    requires
        call_ensures(
            EnqueueEnrichmentParams::decode,
            (&JsonValue::Object(members),),
            Ok::<EnqueueEnrichmentParams, DecodeError>(p),
        ),
    ensures
        forall|i: int|
            0 <= i < members@.len() && (#[trigger] members@[i]).0@ == "contact_ids"@ ==> (
            members@[i].1 matches JsonValue::Array(items) && {
                    &&& p.contact_ids@.len() == items@.len()
                    &&& forall|k: int|
                        0 <= k < items@.len() ==> (#[trigger] items@[k] matches JsonValue::Number(n)
                            && n.integer == Some(p.contact_ids@[k]))
                }),
        exists|i: int| 0 <= i < members@.len() && (#[trigger] members@[i]).0@ == "contact_ids"@,
{
    let shape = Shape::EnqueueEnrichment;
    let names = shape_schema(shape).names;
    let vs = p.deep_view();
    lemma_sent(shape, members, vs);
    assert(names[0] == "contact_ids"@);
    assert forall|i: int| 0 <= i < members@.len() && (#[trigger] members@[i]).0@
        == "contact_ids"@ implies (members@[i].1 matches JsonValue::Array(items) && {
                    &&& p.contact_ids@.len() == items@.len()
                    &&& forall|k: int|
                        0 <= k < items@.len() ==> (#[trigger] items@[k] matches JsonValue::Number(n)
                            && n.integer == Some(p.contact_ids@[k]))
                }) by {
        assert(field_value(shape_kinds(shape)[0], members@[i].1@) == Ok::<ValueView, Seq<char>>(
            vs[0],
        ));
        lemma_integers_of_array(members@[i].1);
    }
}

/// Where an object is taken as the parameters of a follow up, none of them is given twice.
pub proof fn law_follow_up_is_given_each_parameter_once(
    members: Vec<(String, JsonValue)>,
    p: EnqueueEnrichmentParams,
    names: Seq<Seq<char>>,
)
    requires
        call_ensures(
            EnqueueEnrichmentParams::decode,
            (&JsonValue::Object(members),),
            Ok::<EnqueueEnrichmentParams, DecodeError>(p),
        ),
        names == seq!["contact_ids"@],
    ensures
        forall|i: int, k: int|
            #![trigger members@[i], members@[k]]
            0 <= i < k < members@.len() && names.contains(members@[i].0@) ==> members@[i].0@
                != members@[k].0@,
{
    lemma_sent(Shape::EnqueueEnrichment, members, p.deep_view());
}

/// An object is taken as the parameters of a follow up where each of them that must be given is,
/// none is given twice, and each is of its kind, whatever its length or size, whatever other
/// members it has.
pub proof fn law_parameters_of_a_follow_up_are_taken(
    members: Vec<(String, JsonValue)>,
    r: Result<EnqueueEnrichmentParams, DecodeError>,
    names: Seq<Seq<char>>,
)
    requires
        call_ensures(EnqueueEnrichmentParams::decode, (&JsonValue::Object(members),), r),
        names == seq!["contact_ids"@],
        forall|i: int|
            0 <= i < members@.len() && (#[trigger] members@[i]).0@ == "contact_ids"@ ==> (
            members@[i].1 matches JsonValue::Array(items) && forall|k: int|
                    0 <= k < items@.len() ==> (#[trigger] items@[k] matches JsonValue::Number(n)
                        && n.integer is Some)),
        exists|i: int| 0 <= i < members@.len() && (#[trigger] members@[i]).0@ == "contact_ids"@,
        forall|i: int, k: int|
            #![trigger members@[i], members@[k]]
            0 <= i < k < members@.len() && names.contains(members@[i].0@) ==> members@[i].0@
                != members@[k].0@,
    ensures
        r is Ok,
{
    let shape = Shape::EnqueueEnrichment;
    assert forall|i: int, j: int|
        #![trigger members@[i], shape_schema(shape).names[j]]
        0 <= i < members@.len() && 0 <= j < shape_schema(shape).names.len() && members@[i].0@
            == shape_schema(shape).names[j] implies field_value(
        shape_kinds(shape)[j],
        members@[i].1@,
    ) is Ok by {
        if j == 0 {
            assert(members@[i].0@ == "contact_ids"@);
            lemma_integers_of_array(members@[i].1);
        }
    }
    lemma_is_taken(shape, members);
}

/// The parameters of a company update hold what was sent under their names, whole; one that nothing
/// was sent for has its default, where it has one, and must be sent where it has none.
#[verifier::rlimit(50)]
pub proof fn law_company_update_holds_what_was_sent(
    members: Vec<(String, JsonValue)>,
    p: UpdateCompanyFieldsParams,
)
    requires
        call_ensures(
            UpdateCompanyFieldsParams::decode,
            (&JsonValue::Object(members),),
            Ok::<UpdateCompanyFieldsParams, DecodeError>(p),
        ),
    ensures
        forall|i: int|
            0 <= i < members@.len() && (#[trigger] members@[i]).0@ == "company_id"@ ==> (
            members@[i].1 matches JsonValue::Number(n) && n.integer == Some(p.company_id)),
        exists|i: int| 0 <= i < members@.len() && (#[trigger] members@[i]).0@ == "company_id"@,
        forall|i: int|
            0 <= i < members@.len() && (#[trigger] members@[i]).0@ == "overwrite"@ ==> (
            members@[i].1 == JsonValue::Bool(p.overwrite)),
        (forall|i: int| 0 <= i < members@.len()
            ==> (#[trigger] members@[i]).0@ != "overwrite"@) ==> !p.overwrite,
{
    let shape = Shape::UpdateCompanyFields;
    let names = shape_schema(shape).names;
    let vs = p.deep_view();
    lemma_sent(shape, members, vs);
    assert(names[0] == "company_id"@);
    assert forall|i: int| 0 <= i < members@.len() && (#[trigger] members@[i]).0@
        == "company_id"@ implies (
        members@[i].1 matches JsonValue::Number(n) && n.integer == Some(p.company_id)) by {
        assert(field_value(shape_kinds(shape)[0], members@[i].1@) == Ok::<ValueView, Seq<char>>(
            vs[0],
        ));
    }
    assert(names[2] == "overwrite"@);
    assert forall|i: int| 0 <= i < members@.len() && (#[trigger] members@[i]).0@
        == "overwrite"@ implies (members@[i].1 == JsonValue::Bool(p.overwrite)) by {
        assert(field_value(shape_kinds(shape)[2], members@[i].1@) == Ok::<ValueView, Seq<char>>(
            vs[2],
        ));
    }
}

/// The fields of a company update are the updates that were sent under that name, every one, whole;
/// where nothing was sent for them there are none.
#[verifier::rlimit(50)]
pub proof fn law_fields_of_a_company_update_are_those_sent(
    members: Vec<(String, JsonValue)>,
    p: UpdateCompanyFieldsParams,
    i: int,
    r: Result<CompanyFieldUpdates, DecodeError>,
)
    requires
        call_ensures(
            UpdateCompanyFieldsParams::decode,
            (&JsonValue::Object(members),),
            Ok::<UpdateCompanyFieldsParams, DecodeError>(p),
        ),
        0 <= i < members@.len() && members@[i].0@ == "fields"@ && call_ensures(
            CompanyFieldUpdates::decode,
            (&members@[i].1,),
            r,
        ) || forall|k: int| 0 <= k < members@.len() ==> (#[trigger] members@[k]).0@ != "fields"@,
    ensures
        0 <= i < members@.len() && members@[i].0@ == "fields"@ ==> (r matches Ok(read) && {
            &&& p.fields.url.deep_view() == read.url.deep_view()
            &&& p.fields.industry.deep_view() == read.industry.deep_view()
            &&& p.fields.category.deep_view() == read.category.deep_view()
            &&& p.fields.size_range.deep_view() == read.size_range.deep_view()
            &&& p.fields.description.deep_view() == read.description.deep_view()
            &&& p.fields.hq_location.deep_view() == read.hq_location.deep_view()
            &&& p.fields.stock_symbol.deep_view() == read.stock_symbol.deep_view()
            &&& p.fields.main_phone.deep_view() == read.main_phone.deep_view()
        }),
        (forall|k: int| 0 <= k < members@.len() ==> (#[trigger] members@[k]).0@ != "fields"@) ==> {
            &&& p.fields.url is None
            &&& p.fields.industry is None
            &&& p.fields.category is None
            &&& p.fields.size_range is None
            &&& p.fields.description is None
            &&& p.fields.hq_location is None
            &&& p.fields.stock_symbol is None
            &&& p.fields.main_phone is None
        },
{
    let shape = Shape::UpdateCompanyFields;
    let names = shape_schema(shape).names;
    let vs = p.deep_view();
    lemma_sent(shape, members, vs);
    assert(names[1] == "fields"@);
    if 0 <= i < members@.len() && members@[i].0@ == "fields"@ {
        assert(field_value(shape_kinds(shape)[1], members@[i].1@) == Ok::<ValueView, Seq<char>>(
            vs[1],
        ));
        assert(r is Ok);
        lemma_same_company(r->Ok_0, p.fields);
    } else {
        assert(p.fields@ == no_updates(Updates::Company));
        assert(p.fields@[0] is None);
        assert(p.fields@[1] is None);
        assert(p.fields@[2] is None);
        assert(p.fields@[3] is None);
        assert(p.fields@[4] is None);
        assert(p.fields@[5] is None);
        assert(p.fields@[6] is None);
        assert(p.fields@[7] is None);
    }
}

/// Where an object is taken as the parameters of a company update, none of them is given twice.
pub proof fn law_company_update_is_given_each_parameter_once(
    members: Vec<(String, JsonValue)>,
    p: UpdateCompanyFieldsParams,
    names: Seq<Seq<char>>,
)
    requires
        call_ensures(
            UpdateCompanyFieldsParams::decode,
            (&JsonValue::Object(members),),
            Ok::<UpdateCompanyFieldsParams, DecodeError>(p),
        ),
        names == seq!["company_id"@, "fields"@, "overwrite"@],
    ensures
        forall|i: int, k: int|
            #![trigger members@[i], members@[k]]
            0 <= i < k < members@.len() && names.contains(members@[i].0@) ==> members@[i].0@
                != members@[k].0@,
{
    lemma_sent(Shape::UpdateCompanyFields, members, p.deep_view());
}

/// An object is taken as the parameters of a company update where each of them that must be given
/// is, none is given twice, and each is of its kind, whatever its length or size, whatever other
/// members it has.
#[verifier::rlimit(50)]
pub proof fn law_parameters_of_a_company_update_are_taken(
    members: Vec<(String, JsonValue)>,
    r: Result<UpdateCompanyFieldsParams, DecodeError>,
    names: Seq<Seq<char>>,
)
    requires
        call_ensures(UpdateCompanyFieldsParams::decode, (&JsonValue::Object(members),), r),
        names == seq!["company_id"@, "fields"@, "overwrite"@],
        forall|i: int|
            0 <= i < members@.len() && (#[trigger] members@[i]).0@ == "company_id"@ ==> (
            members@[i].1 matches JsonValue::Number(n) && n.integer is Some),
        exists|i: int| 0 <= i < members@.len() && (#[trigger] members@[i]).0@ == "company_id"@,
        forall|i: int|
            0 <= i < members@.len() && (#[trigger] members@[i]).0@ == "fields"@ ==> (
            exists|r: Result<CompanyFieldUpdates, DecodeError>| #[trigger]
                call_ensures(CompanyFieldUpdates::decode, (&members@[i].1,), r) && r is Ok),
        forall|i: int|
            0 <= i < members@.len() && (#[trigger] members@[i]).0@ == "overwrite"@ ==> (
            members@[i].1 is Bool),
        forall|i: int, k: int|
            #![trigger members@[i], members@[k]]
            0 <= i < k < members@.len() && names.contains(members@[i].0@) ==> members@[i].0@
                != members@[k].0@,
    ensures
        r is Ok,
{
    let shape = Shape::UpdateCompanyFields;
    assert forall|i: int, j: int|
        #![trigger members@[i], shape_schema(shape).names[j]]
        0 <= i < members@.len() && 0 <= j < shape_schema(shape).names.len() && members@[i].0@
            == shape_schema(shape).names[j] implies field_value(
        shape_kinds(shape)[j],
        members@[i].1@,
    ) is Ok by {
        if j == 0 {
            assert(members@[i].0@ == "company_id"@);
        }
        if j == 1 {
            assert(members@[i].0@ == "fields"@);
            assert(updates_value(Updates::Company, members@[i].1@) is Ok);
        }
        if j == 2 {
            assert(members@[i].0@ == "overwrite"@);
        }
    }
    lemma_is_taken(shape, members);
}

/// The parameters of a company listing hold what was sent under their names, whole; one that
/// nothing was sent for has its default, where it has one, and must be sent where it has none.
pub proof fn law_company_listing_holds_what_was_sent(
    members: Vec<(String, JsonValue)>,
    p: ListCompaniesNeedingEnrichmentParams,
)
    requires
        call_ensures(
            ListCompaniesNeedingEnrichmentParams::decode,
            (&JsonValue::Object(members),),
            Ok::<ListCompaniesNeedingEnrichmentParams, DecodeError>(p),
        ),
    ensures
        forall|i: int|
            0 <= i < members@.len() && (#[trigger] members@[i]).0@ == "limit"@ ==> (
            forall|read: Result<Option<i64>, DecodeError>| #[trigger]
                    call_ensures(deserialize_flexible_i64, (&members@[i].1,), read)
                        ==> read == Ok::<
                        Option<i64>,
                        DecodeError,
                    >(p.limit)),
        (forall|i: int| 0 <= i < members@.len() ==> (#[trigger] members@[i]).0@ != "limit"@)
            ==> p.limit is None,
{
    let shape = Shape::ListCompaniesNeedingEnrichment;
    let names = shape_schema(shape).names;
    let vs = p.deep_view();
    lemma_sent(shape, members, vs);
    assert(names[0] == "limit"@);
    assert forall|i: int| 0 <= i < members@.len() && (#[trigger] members@[i]).0@
        == "limit"@ implies (forall|read: Result<Option<i64>, DecodeError>| #[trigger]
                    call_ensures(deserialize_flexible_i64, (&members@[i].1,), read)
                        ==> read == Ok::<
                        Option<i64>,
                        DecodeError,
                    >(p.limit)) by {
        assert(field_value(shape_kinds(shape)[0], members@[i].1@) == Ok::<ValueView, Seq<char>>(
            vs[0],
        ));
    }
}

/// Where an object is taken as the parameters of a company listing, none of them is given twice.
pub proof fn law_company_listing_is_given_each_parameter_once(
    members: Vec<(String, JsonValue)>,
    p: ListCompaniesNeedingEnrichmentParams,
    names: Seq<Seq<char>>,
)
    requires
        call_ensures(
            ListCompaniesNeedingEnrichmentParams::decode,
            (&JsonValue::Object(members),),
            Ok::<ListCompaniesNeedingEnrichmentParams, DecodeError>(p),
        ),
        names == seq!["limit"@],
    ensures
        forall|i: int, k: int|
            #![trigger members@[i], members@[k]]
            0 <= i < k < members@.len() && names.contains(members@[i].0@) ==> members@[i].0@
                != members@[k].0@,
{
    lemma_sent(Shape::ListCompaniesNeedingEnrichment, members, p.deep_view());
}

/// An object is taken as the parameters of a company listing where each of them that must be given
/// is, none is given twice, and each is of its kind, whatever its length or size, whatever other
/// members it has.
pub proof fn law_parameters_of_a_company_listing_are_taken(
    members: Vec<(String, JsonValue)>,
    r: Result<ListCompaniesNeedingEnrichmentParams, DecodeError>,
    names: Seq<Seq<char>>,
)
    requires
        call_ensures(
            ListCompaniesNeedingEnrichmentParams::decode,
            (&JsonValue::Object(members),),
            r,
        ),
        names == seq!["limit"@],
        forall|i: int|
            0 <= i < members@.len() && (#[trigger] members@[i]).0@ == "limit"@ ==> (
            exists|read: Result<Option<i64>, DecodeError>| #[trigger]
                call_ensures(deserialize_flexible_i64, (&members@[i].1,), read) && read is Ok),
        forall|i: int, k: int|
            #![trigger members@[i], members@[k]]
            0 <= i < k < members@.len() && names.contains(members@[i].0@) ==> members@[i].0@
                != members@[k].0@,
    ensures
        r is Ok,
{
    let shape = Shape::ListCompaniesNeedingEnrichment;
    assert forall|i: int, j: int|
        #![trigger members@[i], shape_schema(shape).names[j]]
        0 <= i < members@.len() && 0 <= j < shape_schema(shape).names.len() && members@[i].0@
            == shape_schema(shape).names[j] implies field_value(
        shape_kinds(shape)[j],
        members@[i].1@,
    ) is Ok by {
        if j == 0 {
            assert(members@[i].0@ == "limit"@);
            assert(flexible_i64(members@[i].1@) is Ok);
        }
    }
    lemma_is_taken(shape, members);
}

/// The parameters of a contact update hold what was sent under their names, whole; one that nothing
/// was sent for has its default, where it has one, and must be sent where it has none.
#[verifier::rlimit(50)]
pub proof fn law_contact_update_holds_what_was_sent(
    members: Vec<(String, JsonValue)>,
    p: UpdateContactFieldsParams,
)
    requires
        call_ensures(
            UpdateContactFieldsParams::decode,
            (&JsonValue::Object(members),),
            Ok::<UpdateContactFieldsParams, DecodeError>(p),
        ),
    ensures
        forall|i: int|
            0 <= i < members@.len() && (#[trigger] members@[i]).0@ == "contact_id"@ ==> (
            members@[i].1 matches JsonValue::Number(n) && n.integer == Some(p.contact_id)),
        exists|i: int| 0 <= i < members@.len() && (#[trigger] members@[i]).0@ == "contact_id"@,
        forall|i: int|
            0 <= i < members@.len() && (#[trigger] members@[i]).0@ == "write_mode"@ ==> (
            match members@[i].1 {
                    JsonValue::Null => p.write_mode is None,
                    JsonValue::Text(s) => p.write_mode matches Some(t) && t@ == s@,
                    _ => false,
                }),
        (forall|i: int| 0 <= i < members@.len()
            ==> (#[trigger] members@[i]).0@ != "write_mode"@) ==> p.write_mode is None,
{
    let shape = Shape::UpdateContactFields;
    let names = shape_schema(shape).names;
    let vs = p.deep_view();
    lemma_sent(shape, members, vs);
    assert(names[0] == "contact_id"@);
    assert forall|i: int| 0 <= i < members@.len() && (#[trigger] members@[i]).0@
        == "contact_id"@ implies (
        members@[i].1 matches JsonValue::Number(n) && n.integer == Some(p.contact_id)) by {
        assert(field_value(shape_kinds(shape)[0], members@[i].1@) == Ok::<ValueView, Seq<char>>(
            vs[0],
        ));
    }
    assert(names[2] == "write_mode"@);
    assert forall|i: int| 0 <= i < members@.len() && (#[trigger] members@[i]).0@
        == "write_mode"@ implies (match members@[i].1 {
                    JsonValue::Null => p.write_mode is None,
                    JsonValue::Text(s) => p.write_mode matches Some(t) && t@ == s@,
                    _ => false,
                }) by {
        assert(field_value(shape_kinds(shape)[2], members@[i].1@) == Ok::<ValueView, Seq<char>>(
            vs[2],
        ));
    }
}

/// The fields of a contact update are the updates that were sent under that name, every one, whole;
/// where nothing was sent for them there are none.
#[verifier::rlimit(50)]
pub proof fn law_fields_of_a_contact_update_are_those_sent(
    members: Vec<(String, JsonValue)>,
    p: UpdateContactFieldsParams,
    i: int,
    r: Result<ContactFieldUpdates, DecodeError>,
)
    requires
        call_ensures(
            UpdateContactFieldsParams::decode,
            (&JsonValue::Object(members),),
            Ok::<UpdateContactFieldsParams, DecodeError>(p),
        ),
        0 <= i < members@.len() && members@[i].0@ == "fields"@ && call_ensures(
            ContactFieldUpdates::decode,
            (&members@[i].1,),
            r,
        ) || forall|k: int| 0 <= k < members@.len() ==> (#[trigger] members@[k]).0@ != "fields"@,
    ensures
        0 <= i < members@.len() && members@[i].0@ == "fields"@ ==> (r matches Ok(read) && {
            &&& p.fields.schools_attended.deep_view() == read.schools_attended.deep_view()
            &&& p.fields.previous_companies.deep_view() == read.previous_companies.deep_view()
            &&& p.fields.previous_positions.deep_view() == read.previous_positions.deep_view()
            &&& p.fields.geographic_location.deep_view() == read.geographic_location.deep_view()
            &&& p.fields.ai_research_summary.deep_view() == read.ai_research_summary.deep_view()
            &&& p.fields.mobile_phone.deep_view() == read.mobile_phone.deep_view()
            &&& p.fields.home_phone.deep_view() == read.home_phone.deep_view()
            &&& p.fields.business_phone.deep_view() == read.business_phone.deep_view()
            &&& p.fields.home_address.deep_view() == read.home_address.deep_view()
            &&& p.fields.websites.deep_view() == read.websites.deep_view()
            &&& p.fields.instant_message.deep_view() == read.instant_message.deep_view()
            &&& p.fields.birthday.deep_view() == read.birthday.deep_view()
            &&& p.fields.secondary_email.deep_view() == read.secondary_email.deep_view()
        }),
        (forall|k: int| 0 <= k < members@.len() ==> (#[trigger] members@[k]).0@ != "fields"@) ==> {
            &&& p.fields.schools_attended is None
            &&& p.fields.previous_companies is None
            &&& p.fields.previous_positions is None
            &&& p.fields.geographic_location is None
            &&& p.fields.ai_research_summary is None
            &&& p.fields.mobile_phone is None
            &&& p.fields.home_phone is None
            &&& p.fields.business_phone is None
            &&& p.fields.home_address is None
            &&& p.fields.websites is None
            &&& p.fields.instant_message is None
            &&& p.fields.birthday is None
            &&& p.fields.secondary_email is None
        },
{
    let shape = Shape::UpdateContactFields;
    let names = shape_schema(shape).names;
    let vs = p.deep_view();
    lemma_sent(shape, members, vs);
    assert(names[1] == "fields"@);
    if 0 <= i < members@.len() && members@[i].0@ == "fields"@ {
        assert(field_value(shape_kinds(shape)[1], members@[i].1@) == Ok::<ValueView, Seq<char>>(
            vs[1],
        ));
        assert(r is Ok);
        lemma_same_contact(r->Ok_0, p.fields);
    } else {
        assert(p.fields@ == no_updates(Updates::Contact));
        assert(p.fields@[0] is None);
        assert(p.fields@[1] is None);
        assert(p.fields@[2] is None);
        assert(p.fields@[3] is None);
        assert(p.fields@[4] is None);
        assert(p.fields@[5] is None);
        assert(p.fields@[6] is None);
        assert(p.fields@[7] is None);
        assert(p.fields@[8] is None);
        assert(p.fields@[9] is None);
        assert(p.fields@[10] is None);
        assert(p.fields@[11] is None);
        assert(p.fields@[12] is None);
    }
}

/// Where an object is taken as the parameters of a contact update, none of them is given twice, and
/// there is no other member.
pub proof fn law_contact_update_is_given_each_parameter_once(
    members: Vec<(String, JsonValue)>,
    p: UpdateContactFieldsParams,
    names: Seq<Seq<char>>,
)
    requires
        call_ensures(
            UpdateContactFieldsParams::decode,
            (&JsonValue::Object(members),),
            Ok::<UpdateContactFieldsParams, DecodeError>(p),
        ),
        names == seq!["contact_id"@, "fields"@, "write_mode"@],
    ensures
        forall|i: int, k: int|
            #![trigger members@[i], members@[k]]
            0 <= i < k < members@.len() && names.contains(members@[i].0@) ==> members@[i].0@
                != members@[k].0@,
        forall|i: int|
            0 <= i < members@.len() ==> names.contains((#[trigger] members@[i]).0@),
{
    lemma_sent(Shape::UpdateContactFields, members, p.deep_view());
}

/// An object is taken as the parameters of a contact update where each of them that must be given
/// is, none is given twice, and each is of its kind, whatever its length or size, and where it has
/// no other member.
#[verifier::rlimit(50)]
pub proof fn law_parameters_of_a_contact_update_are_taken(
    members: Vec<(String, JsonValue)>,
    r: Result<UpdateContactFieldsParams, DecodeError>,
    names: Seq<Seq<char>>,
)
    requires
        call_ensures(UpdateContactFieldsParams::decode, (&JsonValue::Object(members),), r),
        names == seq!["contact_id"@, "fields"@, "write_mode"@],
        forall|i: int|
            0 <= i < members@.len() && (#[trigger] members@[i]).0@ == "contact_id"@ ==> (
            members@[i].1 matches JsonValue::Number(n) && n.integer is Some),
        exists|i: int| 0 <= i < members@.len() && (#[trigger] members@[i]).0@ == "contact_id"@,
        forall|i: int|
            0 <= i < members@.len() && (#[trigger] members@[i]).0@ == "fields"@ ==> (
            exists|r: Result<ContactFieldUpdates, DecodeError>| #[trigger]
                call_ensures(ContactFieldUpdates::decode, (&members@[i].1,), r) && r is Ok),
        forall|i: int|
            0 <= i < members@.len() && (#[trigger] members@[i]).0@ == "write_mode"@ ==> (
            members@[i].1 is Text || members@[i].1 is Null),
        forall|i: int, k: int|
            #![trigger members@[i], members@[k]]
            0 <= i < k < members@.len() && names.contains(members@[i].0@) ==> members@[i].0@
                != members@[k].0@,
        forall|i: int|
            0 <= i < members@.len() ==> names.contains((#[trigger] members@[i]).0@),
    ensures
        r is Ok,
{
    let shape = Shape::UpdateContactFields;
    assert forall|i: int, j: int|
        #![trigger members@[i], shape_schema(shape).names[j]]
        0 <= i < members@.len() && 0 <= j < shape_schema(shape).names.len() && members@[i].0@
            == shape_schema(shape).names[j] implies field_value(
        shape_kinds(shape)[j],
        members@[i].1@,
    ) is Ok by {
        if j == 0 {
            assert(members@[i].0@ == "contact_id"@);
        }
        if j == 1 {
            assert(members@[i].0@ == "fields"@);
            assert(updates_value(Updates::Contact, members@[i].1@) is Ok);
        }
        if j == 2 {
            assert(members@[i].0@ == "write_mode"@);
        }
    }
    lemma_is_taken(shape, members);
}

/// The parameters of a contact listing hold what was sent under their names, whole; one that
/// nothing was sent for has its default, where it has one, and must be sent where it has none.
pub proof fn law_contact_listing_holds_what_was_sent(
    members: Vec<(String, JsonValue)>,
    p: ListContactsNeedingEnrichmentParams,
)
    requires
        call_ensures(
            ListContactsNeedingEnrichmentParams::decode,
            (&JsonValue::Object(members),),
            Ok::<ListContactsNeedingEnrichmentParams, DecodeError>(p),
        ),
    ensures
        forall|i: int|
            0 <= i < members@.len() && (#[trigger] members@[i]).0@ == "limit"@ ==> (
            forall|read: Result<Option<i64>, DecodeError>| #[trigger]
                    call_ensures(deserialize_flexible_i64, (&members@[i].1,), read)
                        ==> read == Ok::<
                        Option<i64>,
                        DecodeError,
                    >(p.limit)),
        (forall|i: int| 0 <= i < members@.len() ==> (#[trigger] members@[i]).0@ != "limit"@)
            ==> p.limit is None,
{
    let shape = Shape::ListContactsNeedingEnrichment;
    let names = shape_schema(shape).names;
    let vs = p.deep_view();
    lemma_sent(shape, members, vs);
    assert(names[0] == "limit"@);
    assert forall|i: int| 0 <= i < members@.len() && (#[trigger] members@[i]).0@
        == "limit"@ implies (forall|read: Result<Option<i64>, DecodeError>| #[trigger]
                    call_ensures(deserialize_flexible_i64, (&members@[i].1,), read)
                        ==> read == Ok::<
                        Option<i64>,
                        DecodeError,
                    >(p.limit)) by {
        assert(field_value(shape_kinds(shape)[0], members@[i].1@) == Ok::<ValueView, Seq<char>>(
            vs[0],
        ));
    }
}

/// Where an object is taken as the parameters of a contact listing, none of them is given twice.
pub proof fn law_contact_listing_is_given_each_parameter_once(
    members: Vec<(String, JsonValue)>,
    p: ListContactsNeedingEnrichmentParams,
    names: Seq<Seq<char>>,
)
    requires
        call_ensures(
            ListContactsNeedingEnrichmentParams::decode,
            (&JsonValue::Object(members),),
            Ok::<ListContactsNeedingEnrichmentParams, DecodeError>(p),
        ),
        names == seq!["limit"@],
    ensures
        forall|i: int, k: int|
            #![trigger members@[i], members@[k]]
            0 <= i < k < members@.len() && names.contains(members@[i].0@) ==> members@[i].0@
                != members@[k].0@,
{
    lemma_sent(Shape::ListContactsNeedingEnrichment, members, p.deep_view());
}

/// An object is taken as the parameters of a contact listing where each of them that must be given
/// is, none is given twice, and each is of its kind, whatever its length or size, whatever other
/// members it has.
pub proof fn law_parameters_of_a_contact_listing_are_taken(
    members: Vec<(String, JsonValue)>,
    r: Result<ListContactsNeedingEnrichmentParams, DecodeError>,
    names: Seq<Seq<char>>,
)
    requires
        call_ensures(
            ListContactsNeedingEnrichmentParams::decode,
            (&JsonValue::Object(members),),
            r,
        ),
        names == seq!["limit"@],
        forall|i: int|
            0 <= i < members@.len() && (#[trigger] members@[i]).0@ == "limit"@ ==> (
            exists|read: Result<Option<i64>, DecodeError>| #[trigger]
                call_ensures(deserialize_flexible_i64, (&members@[i].1,), read) && read is Ok),
        forall|i: int, k: int|
            #![trigger members@[i], members@[k]]
            0 <= i < k < members@.len() && names.contains(members@[i].0@) ==> members@[i].0@
                != members@[k].0@,
    ensures
        r is Ok,
{
    let shape = Shape::ListContactsNeedingEnrichment;
    assert forall|i: int, j: int|
        #![trigger members@[i], shape_schema(shape).names[j]]
        0 <= i < members@.len() && 0 <= j < shape_schema(shape).names.len() && members@[i].0@
            == shape_schema(shape).names[j] implies field_value(
        shape_kinds(shape)[j],
        members@[i].1@,
    ) is Ok by {
        if j == 0 {
            assert(members@[i].0@ == "limit"@);
            assert(flexible_i64(members@[i].1@) is Ok);
        }
    }
    lemma_is_taken(shape, members);
}

/// The parameters of a backup hold what was sent under their names, whole; one that nothing was
/// sent for has its default, where it has one, and must be sent where it has none.
pub proof fn law_backup_holds_what_was_sent(members: Vec<(String, JsonValue)>, p: BackupVaultParams)
    requires
        call_ensures(
            BackupVaultParams::decode,
            (&JsonValue::Object(members),),
            Ok::<BackupVaultParams, DecodeError>(p),
        ),
    ensures
        forall|i: int|
            0 <= i < members@.len() && (#[trigger] members@[i]).0@ == "path"@ ==> (
            members@[i].1 matches JsonValue::Text(s) && p.path@ == s@),
        exists|i: int| 0 <= i < members@.len() && (#[trigger] members@[i]).0@ == "path"@,
{
    let shape = Shape::BackupVault;
    let names = shape_schema(shape).names;
    let vs = p.deep_view();
    lemma_sent(shape, members, vs);
    assert(names[0] == "path"@);
    assert forall|i: int| 0 <= i < members@.len() && (#[trigger] members@[i]).0@
        == "path"@ implies (members@[i].1 matches JsonValue::Text(s) && p.path@ == s@) by {
        assert(field_value(shape_kinds(shape)[0], members@[i].1@) == Ok::<ValueView, Seq<char>>(
            vs[0],
        ));
    }
}

/// Where an object is taken as the parameters of a backup, none of them is given twice.
pub proof fn law_backup_is_given_each_parameter_once(
    members: Vec<(String, JsonValue)>,
    p: BackupVaultParams,
    names: Seq<Seq<char>>,
)
    requires
        call_ensures(
            BackupVaultParams::decode,
            (&JsonValue::Object(members),),
            Ok::<BackupVaultParams, DecodeError>(p),
        ),
        names == seq!["path"@],
    ensures
        forall|i: int, k: int|
            #![trigger members@[i], members@[k]]
            0 <= i < k < members@.len() && names.contains(members@[i].0@) ==> members@[i].0@
                != members@[k].0@,
{
    lemma_sent(Shape::BackupVault, members, p.deep_view());
}

/// An object is taken as the parameters of a backup where each of them that must be given is, none
/// is given twice, and each is of its kind, whatever its length or size, whatever other members it
/// has.
pub proof fn law_parameters_of_a_backup_are_taken(
    members: Vec<(String, JsonValue)>,
    r: Result<BackupVaultParams, DecodeError>,
    names: Seq<Seq<char>>,
)
    requires
        call_ensures(BackupVaultParams::decode, (&JsonValue::Object(members),), r),
        names == seq!["path"@],
        forall|i: int|
            0 <= i < members@.len() && (#[trigger] members@[i]).0@ == "path"@ ==> (
            members@[i].1 is Text),
        exists|i: int| 0 <= i < members@.len() && (#[trigger] members@[i]).0@ == "path"@,
        forall|i: int, k: int|
            #![trigger members@[i], members@[k]]
            0 <= i < k < members@.len() && names.contains(members@[i].0@) ==> members@[i].0@
                != members@[k].0@,
    ensures
        r is Ok,
{
    let shape = Shape::BackupVault;
    assert forall|i: int, j: int|
        #![trigger members@[i], shape_schema(shape).names[j]]
        0 <= i < members@.len() && 0 <= j < shape_schema(shape).names.len() && members@[i].0@
            == shape_schema(shape).names[j] implies field_value(
        shape_kinds(shape)[j],
        members@[i].1@,
    ) is Ok by {
        if j == 0 {
            assert(members@[i].0@ == "path"@);
        }
    }
    lemma_is_taken(shape, members);
}

/// What an array of the library gives as a list of integers.
proof fn lemma_integers_of_array(value: JsonValue)
    ensures
        integers_value(value@) matches Ok(ns) ==> (value matches JsonValue::Array(items) && {
            &&& ns.len() == items@.len()
            &&& forall|k: int|
                0 <= k < items@.len() ==> (#[trigger] items@[k] matches JsonValue::Number(n)
                    && n.integer == Some(ns[k]))
        }),
        value matches JsonValue::Array(items) && (forall|k: int|
            0 <= k < items@.len() ==> (#[trigger] items@[k] matches JsonValue::Number(n)
                && n.integer is Some)) ==> integers_value(value@) is Ok,
{
    if let JsonValue::Array(items) = value {
        let views = value@->Array_0;
        lemma_integers(views);
        if integers(views) is Ok {
            let ns = integers(views)->Ok_0;
            assert forall|k: int| 0 <= k < items@.len() implies (#[trigger] items@[k] matches
                JsonValue::Number(n) && n.integer == Some(ns[k])) by {
                assert(views[k] == items@[k]@);
                assert(integer_value(views[k]) == Ok::<i64, Seq<char>>(ns[k]));
            }
        }
        if forall|k: int|
            0 <= k < items@.len() ==> (#[trigger] items@[k] matches JsonValue::Number(n)
                && n.integer is Some) {
            assert forall|k: int| 0 <= k < views.len() implies integer_value(
                #[trigger] views[k],
            ) is Ok by {
                assert(views[k] == items@[k]@);
                assert(items@[k] is Number);
            }
        }
    }
}

/// Equal records of updates have equal texts.
proof fn lemma_same_company(a: CompanyFieldUpdates, b: CompanyFieldUpdates)
    requires
        a@ == b@,
    ensures
        ({
            &&& a.url.deep_view() == b.url.deep_view()
            &&& a.industry.deep_view() == b.industry.deep_view()
            &&& a.category.deep_view() == b.category.deep_view()
            &&& a.size_range.deep_view() == b.size_range.deep_view()
            &&& a.description.deep_view() == b.description.deep_view()
            &&& a.hq_location.deep_view() == b.hq_location.deep_view()
            &&& a.stock_symbol.deep_view() == b.stock_symbol.deep_view()
            &&& a.main_phone.deep_view() == b.main_phone.deep_view()
        }),
{
        assert(a@[0] == b@[0]);
        assert(a@[1] == b@[1]);
        assert(a@[2] == b@[2]);
        assert(a@[3] == b@[3]);
        assert(a@[4] == b@[4]);
        assert(a@[5] == b@[5]);
        assert(a@[6] == b@[6]);
        assert(a@[7] == b@[7]);
}

/// Equal records of updates have equal texts.
proof fn lemma_same_contact(a: ContactFieldUpdates, b: ContactFieldUpdates)
    requires
        a@ == b@,
    ensures
        ({
            &&& a.schools_attended.deep_view() == b.schools_attended.deep_view()
            &&& a.previous_companies.deep_view() == b.previous_companies.deep_view()
            &&& a.previous_positions.deep_view() == b.previous_positions.deep_view()
            &&& a.geographic_location.deep_view() == b.geographic_location.deep_view()
            &&& a.ai_research_summary.deep_view() == b.ai_research_summary.deep_view()
            &&& a.mobile_phone.deep_view() == b.mobile_phone.deep_view()
            &&& a.home_phone.deep_view() == b.home_phone.deep_view()
            &&& a.business_phone.deep_view() == b.business_phone.deep_view()
            &&& a.home_address.deep_view() == b.home_address.deep_view()
            &&& a.websites.deep_view() == b.websites.deep_view()
            &&& a.instant_message.deep_view() == b.instant_message.deep_view()
            &&& a.birthday.deep_view() == b.birthday.deep_view()
            &&& a.secondary_email.deep_view() == b.secondary_email.deep_view()
        }),
{
        assert(a@[0] == b@[0]);
        assert(a@[1] == b@[1]);
        assert(a@[2] == b@[2]);
        assert(a@[3] == b@[3]);
        assert(a@[4] == b@[4]);
        assert(a@[5] == b@[5]);
        assert(a@[6] == b@[6]);
        assert(a@[7] == b@[7]);
        assert(a@[8] == b@[8]);
        assert(a@[9] == b@[9]);
        assert(a@[10] == b@[10]);
        assert(a@[11] == b@[11]);
        assert(a@[12] == b@[12]);
}

/// The updates of a company hold what the members of the object say, each the member of its own
/// name, whole; one that no member is for has no text; no name stands twice.
#[verifier::rlimit(50)]
pub proof fn law_company_updates_hold_what_was_sent(
    members: Vec<(String, JsonValue)>,
    p: CompanyFieldUpdates,
    names: Seq<Seq<char>>,
    texts: Seq<Option<Seq<char>>>,
)
    requires
        call_ensures(
            CompanyFieldUpdates::decode,
            (&JsonValue::Object(members),),
            Ok::<CompanyFieldUpdates, DecodeError>(p),
        ),
        names == seq![
            "url"@,
            "industry"@,
            "category"@,
            "size_range"@,
            "description"@,
            "hq_location"@,
            "stock_symbol"@,
            "main_phone"@,
        ],
        texts == seq![
            p.url.deep_view(),
            p.industry.deep_view(),
            p.category.deep_view(),
            p.size_range.deep_view(),
            p.description.deep_view(),
            p.hq_location.deep_view(),
            p.stock_symbol.deep_view(),
            p.main_phone.deep_view(),
        ],
    ensures
        forall|i: int, j: int|
            #![trigger members@[i], names[j]]
            0 <= i < members@.len() && 0 <= j < names.len() && members@[i].0@ == names[j] ==> (
            match members@[i].1 {
                JsonValue::Null => texts[j] is None,
                JsonValue::Text(s) => texts[j] == Some(s@),
                _ => false,
            }),
        forall|j: int|
            #![trigger names[j]]
            0 <= j < names.len() && (forall|i: int|
                0 <= i < members@.len() ==> (#[trigger] members@[i]).0@ != names[j])
                ==> texts[j] is None,
        forall|i: int, k: int|
            #![trigger members@[i], members@[k]]
            0 <= i < k < members@.len() && names.contains(members@[i].0@) ==> members@[i].0@
                != members@[k].0@,
{
    let updates = Updates::Company;
    let schema = updates_schema(updates);
    let ms = JsonValue::Object(members)@->Object_0;
    lemma_object_view(members);
    lemma_updates(updates);
    assert(schema.names == names);
    assert(p@ == texts);
    lemma_taken(schema, updates_defaults(updates), updates_reads(), ms, texts);
    assert forall|i: int, j: int|
        #![trigger members@[i], names[j]]
        0 <= i < members@.len() && 0 <= j < names.len() && members@[i].0@ == names[j] implies (
    match members@[i].1 {
        JsonValue::Null => texts[j] is None,
        JsonValue::Text(s) => texts[j] == Some(s@),
        _ => false,
    }) by {
        assert(ms[i] == (members@[i].0@, members@[i].1@));
        assert(schema.names[j] == ms[i].0);
        assert(optional_text_value(ms[i].1) == Ok::<Option<Seq<char>>, Seq<char>>(texts[j]));
    }
    assert forall|j: int|
        #![trigger names[j]]
        0 <= j < names.len() && (forall|i: int|
            0 <= i < members@.len() ==> (
            #[trigger] members@[i]).0@ != names[j]) implies texts[j] is None by {
        assert forall|i: int| 0 <= i < ms.len() implies (#[trigger] ms[i]).0 != schema.names[j] by {
            assert(members@[i].0@ != names[j]);
        }
        assert(updates_defaults(updates)[j] == Some(texts[j]));
    }
    assert forall|i: int, k: int|
        #![trigger members@[i], members@[k]]
        0 <= i < k < members@.len() && names.contains(members@[i].0@) implies members@[i].0@
        != members@[k].0@ by {
        assert(ms[i].0 != ms[k].0);
    }
}

/// An object is taken as the updates of a company where none is given twice and each is a string or
/// `null`, whatever its length, whatever other members it has.
pub proof fn law_updates_of_a_company_are_taken(
    members: Vec<(String, JsonValue)>,
    r: Result<CompanyFieldUpdates, DecodeError>,
    names: Seq<Seq<char>>,
)
    requires
        call_ensures(CompanyFieldUpdates::decode, (&JsonValue::Object(members),), r),
        names == seq![
            "url"@,
            "industry"@,
            "category"@,
            "size_range"@,
            "description"@,
            "hq_location"@,
            "stock_symbol"@,
            "main_phone"@,
        ],
        forall|i: int|
            0 <= i < members@.len() && names.contains((#[trigger] members@[i]).0@)
                ==> members@[i].1 is Text || members@[i].1 is Null,
        forall|i: int, k: int|
            #![trigger members@[i], members@[k]]
            0 <= i < k < members@.len() && names.contains(members@[i].0@) ==> members@[i].0@
                != members@[k].0@,
    ensures
        r is Ok,
{
    let updates = Updates::Company;
    let schema = updates_schema(updates);
    let ms = JsonValue::Object(members)@->Object_0;
    lemma_object_view(members);
    lemma_updates(updates);
    assert(schema.names == names);
    assert forall|i: int, j: int|
        #![trigger ms[i], schema.names[j]]
        0 <= i < ms.len() && 0 <= j < schema.names.len() && ms[i].0
            == schema.names[j] implies updates_reads()(j, ms[i].1) is Ok by {
        assert(ms[i] == (members@[i].0@, members@[i].1@));
        assert(names.contains(members@[i].0@));
        assert(optional_text_value(ms[i].1) is Ok);
    }
    assert forall|i: int, k: int|
        #![trigger ms[i], ms[k]]
        0 <= i < k < ms.len() && schema.names.contains(ms[i].0) implies ms[i].0 != ms[k].0 by {
        assert(members@[i].0@ != members@[k].0@);
    }
    assert forall|i: int| schema.denies_unknown && 0 <= i < ms.len() implies schema.names.contains(
        (#[trigger] ms[i]).0,
    ) by {
        assert(names.contains(members@[i].0@));
    }
    lemma_takes(schema, updates_defaults(updates), updates_reads(), ms);
}

/// The updates of a contact hold what the members of the object say, each the member of its own
/// name, whole; one that no member is for has no text; no name stands twice, and there is no other.
#[verifier::rlimit(50)]
pub proof fn law_contact_updates_hold_what_was_sent(
    members: Vec<(String, JsonValue)>,
    p: ContactFieldUpdates,
    names: Seq<Seq<char>>,
    texts: Seq<Option<Seq<char>>>,
)
    requires
        call_ensures(
            ContactFieldUpdates::decode,
            (&JsonValue::Object(members),),
            Ok::<ContactFieldUpdates, DecodeError>(p),
        ),
        names == seq![
            "schools_attended"@,
            "previous_companies"@,
            "previous_positions"@,
            "geographic_location"@,
            "ai_research_summary"@,
            "mobile_phone"@,
            "home_phone"@,
            "business_phone"@,
            "home_address"@,
            "websites"@,
            "instant_message"@,
            "birthday"@,
            "secondary_email"@,
        ],
        texts == seq![
            p.schools_attended.deep_view(),
            p.previous_companies.deep_view(),
            p.previous_positions.deep_view(),
            p.geographic_location.deep_view(),
            p.ai_research_summary.deep_view(),
            p.mobile_phone.deep_view(),
            p.home_phone.deep_view(),
            p.business_phone.deep_view(),
            p.home_address.deep_view(),
            p.websites.deep_view(),
            p.instant_message.deep_view(),
            p.birthday.deep_view(),
            p.secondary_email.deep_view(),
        ],
    ensures
        forall|i: int, j: int|
            #![trigger members@[i], names[j]]
            0 <= i < members@.len() && 0 <= j < names.len() && members@[i].0@ == names[j] ==> (
            match members@[i].1 {
                JsonValue::Null => texts[j] is None,
                JsonValue::Text(s) => texts[j] == Some(s@),
                _ => false,
            }),
        forall|j: int|
            #![trigger names[j]]
            0 <= j < names.len() && (forall|i: int|
                0 <= i < members@.len() ==> (#[trigger] members@[i]).0@ != names[j])
                ==> texts[j] is None,
        forall|i: int, k: int|
            #![trigger members@[i], members@[k]]
            0 <= i < k < members@.len() && names.contains(members@[i].0@) ==> members@[i].0@
                != members@[k].0@,
        forall|i: int|
            0 <= i < members@.len() ==> names.contains((#[trigger] members@[i]).0@),
{
    let updates = Updates::Contact;
    let schema = updates_schema(updates);
    let ms = JsonValue::Object(members)@->Object_0;
    lemma_object_view(members);
    lemma_updates(updates);
    assert(schema.names == names);
    assert(p@ == texts);
    lemma_taken(schema, updates_defaults(updates), updates_reads(), ms, texts);
    assert forall|i: int, j: int|
        #![trigger members@[i], names[j]]
        0 <= i < members@.len() && 0 <= j < names.len() && members@[i].0@ == names[j] implies (
    match members@[i].1 {
        JsonValue::Null => texts[j] is None,
        JsonValue::Text(s) => texts[j] == Some(s@),
        _ => false,
    }) by {
        assert(ms[i] == (members@[i].0@, members@[i].1@));
        assert(schema.names[j] == ms[i].0);
        assert(optional_text_value(ms[i].1) == Ok::<Option<Seq<char>>, Seq<char>>(texts[j]));
    }
    assert forall|j: int|
        #![trigger names[j]]
        0 <= j < names.len() && (forall|i: int|
            0 <= i < members@.len() ==> (
            #[trigger] members@[i]).0@ != names[j]) implies texts[j] is None by {
        assert forall|i: int| 0 <= i < ms.len() implies (#[trigger] ms[i]).0 != schema.names[j] by {
            assert(members@[i].0@ != names[j]);
        }
        assert(updates_defaults(updates)[j] == Some(texts[j]));
    }
    assert forall|i: int, k: int|
        #![trigger members@[i], members@[k]]
        0 <= i < k < members@.len() && names.contains(members@[i].0@) implies members@[i].0@
        != members@[k].0@ by {
        assert(ms[i].0 != ms[k].0);
    }
    assert forall|i: int| 0 <= i < members@.len()
        implies names.contains((#[trigger] members@[i]).0@) by {
        assert(schema.names.contains(ms[i].0));
    }
}

/// An object is taken as the updates of a contact where none is given twice and each is a string or
/// `null`, whatever its length, and where it has no other member.
pub proof fn law_updates_of_a_contact_are_taken(
    members: Vec<(String, JsonValue)>,
    r: Result<ContactFieldUpdates, DecodeError>,
    names: Seq<Seq<char>>,
)
    requires
        call_ensures(ContactFieldUpdates::decode, (&JsonValue::Object(members),), r),
        names == seq![
            "schools_attended"@,
            "previous_companies"@,
            "previous_positions"@,
            "geographic_location"@,
            "ai_research_summary"@,
            "mobile_phone"@,
            "home_phone"@,
            "business_phone"@,
            "home_address"@,
            "websites"@,
            "instant_message"@,
            "birthday"@,
            "secondary_email"@,
        ],
        forall|i: int|
            0 <= i < members@.len() && names.contains((#[trigger] members@[i]).0@)
                ==> members@[i].1 is Text || members@[i].1 is Null,
        forall|i: int, k: int|
            #![trigger members@[i], members@[k]]
            0 <= i < k < members@.len() && names.contains(members@[i].0@) ==> members@[i].0@
                != members@[k].0@,
        forall|i: int|
            0 <= i < members@.len() ==> names.contains((#[trigger] members@[i]).0@),
    ensures
        r is Ok,
{
    let updates = Updates::Contact;
    let schema = updates_schema(updates);
    let ms = JsonValue::Object(members)@->Object_0;
    lemma_object_view(members);
    lemma_updates(updates);
    assert(schema.names == names);
    assert forall|i: int, j: int|
        #![trigger ms[i], schema.names[j]]
        0 <= i < ms.len() && 0 <= j < schema.names.len() && ms[i].0
            == schema.names[j] implies updates_reads()(j, ms[i].1) is Ok by {
        assert(ms[i] == (members@[i].0@, members@[i].1@));
        assert(names.contains(members@[i].0@));
        assert(optional_text_value(ms[i].1) is Ok);
    }
    assert forall|i: int, k: int|
        #![trigger ms[i], ms[k]]
        0 <= i < k < ms.len() && schema.names.contains(ms[i].0) implies ms[i].0 != ms[k].0 by {
        assert(members@[i].0@ != members@[k].0@);
    }
    assert forall|i: int| schema.denies_unknown && 0 <= i < ms.len() implies schema.names.contains(
        (#[trigger] ms[i]).0,
    ) by {
        assert(names.contains(members@[i].0@));
    }
    lemma_takes(schema, updates_defaults(updates), updates_reads(), ms);
}

} // verus!
