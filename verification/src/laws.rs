//! What holds of the library as a whole.

use std::sync::Arc;
use vstd::prelude::*;

use crate::backend::{
    default_backup_vault, default_list_companies_needing_enrichment,
    default_list_contacts_needing_enrichment, default_update_company_fields,
    default_update_contact_fields, BackendCall,
};
use crate::flexible::flexible_i64;
use crate::json::{JsonNumberView, JsonView};
use crate::params::{
    CompanyFieldsWriteResult, ContactFieldsWriteResult, SearchContactsParams,
    UpdateContactFieldsParams,
};
use crate::record::{
    entry_is_for, entry_value, filled, has_entry, unknown_field_text, EntryView, SchemaView,
};
use crate::render::{array_text, quoted};
use crate::reply::{
    answers, has_form_for, reply_error, reply_text, search_contacts_text, BackendReply,
};
use crate::server::{effective_limit, effective_offset, text_or, McpServer};
use crate::shape::{
    entries_of, field_default, field_value, lemma_entry_value_is_read, optional_text_value, record,
    record_of, shape_defaults, shape_kinds, shape_reads, shape_schema, updates_defaults,
    updates_json, updates_reads, updates_schema, updates_value, FieldKind, Shape, Updates,
    ValueView,
};
use crate::text::{
    decimal, decimal_nat, is_digit, is_white_space, lemma_decimal_nat_reads_back,
    lemma_decimal_reads_back, trim_end, trim_start,
};

verus! {

// ---- Integers -------------------------------------------------------------------------------

/// No part of a decimal text is white space.
proof fn lemma_decimal_has_no_white_space(n: int)
    ensures
        decimal(n).len() > 0,
        forall|i: int| 0 <= i < decimal(n).len() ==> !is_white_space(#[trigger] decimal(n)[i]),
{
    let magnitude = if n < 0 {
        (-n) as nat
    } else {
        n as nat
    };
    lemma_decimal_nat_reads_back(magnitude);
    assert forall|i: int| 0 <= i < decimal(n).len() implies !is_white_space(
        #[trigger] decimal(n)[i],
    ) by {
        if n < 0 {
            if i > 0 {
                assert(is_digit(decimal_nat(magnitude)[i - 1]));
            }
        } else {
            assert(is_digit(decimal_nat(magnitude)[i]));
        }
    }
}

/// Every integer may be sent as a string: its decimal text stands for it.
pub proof fn law_numeric_string_is_the_number(n: i64)
    ensures
        flexible_i64(JsonView::Text(decimal(n as int))) == Ok::<Option<i64>, Seq<char>>(Some(n)),
{
    lemma_decimal_has_no_white_space(n as int);
    lemma_decimal_reads_back(n as int);
    let s = decimal(n as int);
    assert(trim_start(s) == s);
    assert(trim_end(s) == s);
}

/// White space before a text makes no difference to the text trimmed.
proof fn lemma_trim_start_skips(before: Seq<char>, s: Seq<char>)
    requires
        forall|i: int| 0 <= i < before.len() ==> is_white_space(#[trigger] before[i]),
    ensures
        trim_start(before + s) == trim_start(s),
    decreases before.len(),
{
    if before.len() == 0 {
        assert(before + s == s);
    } else {
        assert((before + s)[0] == before[0]);
        assert((before + s).skip(1) == before.skip(1) + s);
        lemma_trim_start_skips(before.skip(1), s);
    }
}

/// White space after a text makes no difference to its end trimmed.
proof fn lemma_trim_end_drops(s: Seq<char>, after: Seq<char>)
    requires
        forall|i: int| 0 <= i < after.len() ==> is_white_space(#[trigger] after[i]),
    ensures
        trim_end(s + after) == trim_end(s),
    decreases after.len(),
{
    if after.len() == 0 {
        assert(s + after == s);
    } else {
        assert((s + after).last() == after.last());
        assert((s + after).drop_last() == s + after.drop_last());
        lemma_trim_end_drops(s, after.drop_last());
    }
}

/// Trimming the start of a text goes past its white space, whatever follows.
proof fn lemma_trim_start_of_sum(s: Seq<char>, after: Seq<char>)
    requires
        forall|i: int| 0 <= i < after.len() ==> is_white_space(#[trigger] after[i]),
    ensures
        trim_end(trim_start(s + after)) == trim_end(trim_start(s)),
    decreases s.len(),
{
    if s.len() == 0 {
        assert(s + after == after);
        assert(after + Seq::<char>::empty() == after);
        lemma_trim_start_skips(after, Seq::empty());
    } else if is_white_space(s[0]) {
        assert((s + after)[0] == s[0]);
        assert((s + after).skip(1) == s.skip(1) + after);
        lemma_trim_start_of_sum(s.skip(1), after);
    } else {
        assert((s + after)[0] == s[0]);
        lemma_trim_end_drops(s, after);
    }
}

/// White space around a numeric string makes no difference.
pub proof fn law_white_space_around_a_string_is_ignored(
    before: Seq<char>,
    s: Seq<char>,
    after: Seq<char>,
)
    requires
        forall|i: int| 0 <= i < before.len() ==> is_white_space(#[trigger] before[i]),
        forall|i: int| 0 <= i < after.len() ==> is_white_space(#[trigger] after[i]),
    ensures
        flexible_i64(JsonView::Text(before + s + after)) == flexible_i64(JsonView::Text(s)),
{
    assert(before + s + after == before + (s + after));
    lemma_trim_start_skips(before, s + after);
    lemma_trim_start_of_sum(s, after);
}

/// A blank string stands for no integer, as `null` does.
pub proof fn law_blank_string_is_none(s: Seq<char>)
    requires
        forall|i: int| 0 <= i < s.len() ==> is_white_space(#[trigger] s[i]),
    ensures
        flexible_i64(JsonView::Text(s)) == flexible_i64(JsonView::Null),
{
    assert(s + Seq::<char>::empty() == s);
    lemma_trim_start_skips(s, Seq::empty());
}

/// Whatever is asked for, the number of rows is at least one and at most the cap; a number within
/// those is kept, and where none is asked for it is the default.
pub proof fn law_limit_is_kept_within_bounds(requested: Option<i64>, default: i64, cap: i64)
    requires
        1 <= default <= cap,
    ensures
        1 <= effective_limit(requested, default, cap) <= cap,
        requested matches Some(n) && 1 <= n <= cap ==> effective_limit(requested, default, cap)
            == requested->Some_0,
        requested is None ==> effective_limit(requested, default, cap) == default,
{
}

/// Whatever is asked for, the number of rows to skip is not negative, and is kept where it is not.
pub proof fn law_offset_is_never_negative(requested: Option<i64>)
    ensures
        0 <= effective_offset(requested),
        requested matches Some(n) && 0 <= n ==> effective_offset(requested)
            == requested->Some_0,
        requested is None ==> effective_offset(requested) == 0,
{
}

// ---- Parameters -----------------------------------------------------------------------------

/// The position of a key is that of a field with that name; where there is none, no field has it.
pub(crate) proof fn lemma_position(schema: SchemaView, key: Seq<char>, j: int)
    requires
        0 <= j,
    ensures
        match schema.position_from(key, j) {
            Some(k) => j <= k < schema.names.len() && schema.names[k] == key,
            None => forall|k: int| j <= k < schema.names.len() ==> schema.names[k] != key,
        },
    decreases schema.names.len() - j,
{
    if j < schema.names.len() && schema.names[j] != key {
        lemma_position(schema, key, j + 1);
    }
}

/// Where no entry is refused, each entry's value is the one that its field has.
pub(crate) proof fn lemma_entry_fills_its_field<V>(
    schema: SchemaView,
    entries: Seq<EntryView<V>>,
    n: int,
    k: int,
)
    requires
        schema.first_fault(entries, 0) is None,
        0 <= k < n <= entries.len(),
        entries[k] is Known,
    ensures
        entries[k]->Known_1 is Ok,
        entry_value(entries.take(n), entries[k]->Known_0) == Some(entries[k]->Known_1->Ok_0),
    decreases n,
{
    schema.lemma_no_fault(entries, 0);
    assert(schema.fault(entries, k) is None);
    let j = entries[k]->Known_0;
    let prefix = entries.take(n);
    assert(prefix.drop_last() == entries.take(n - 1));
    assert(prefix.last() == entries[n - 1]);
    if k < n - 1 {
        lemma_entry_fills_its_field(schema, entries, n - 1, k);
        if entry_is_for(entries[n - 1], j) {
            assert(schema.fault(entries, n - 1) is None);
            assert(entry_is_for(entries.take(n - 1)[k], j));
            assert(has_entry(entries.take(n - 1), j));
        }
    }
}

/// Where an object gives a record, no member that a field has the name of is dropped: the value of
/// the field is what the member reads as.
pub(crate) proof fn lemma_no_member_dropped<V>(
    schema: SchemaView,
    defaults: Seq<Option<V>>,
    read: spec_fn(int, JsonView) -> Result<V, Seq<char>>,
    members: Seq<(Seq<char>, JsonView)>,
    i: int,
)
    requires
        0 <= i < members.len(),
        record_of(schema, defaults, read, JsonView::Object(members)) is Ok,
        schema.position(members[i].0) is Some,
    ensures
        ({
            let j = schema.position(members[i].0)->Some_0;
            let vs = record_of(schema, defaults, read, JsonView::Object(members))->Ok_0;
            &&& 0 <= j < vs.len()
            &&& read(j, members[i].1) == Ok::<V, Seq<char>>(vs[j])
        }),
{
    let entries = entries_of(schema, read, members);
    lemma_position(schema, members[i].0, 0);
    lemma_entry_fills_its_field(schema, entries, entries.len() as int, i);
    assert(entries.take(entries.len() as int) == entries);
}

/// Where a record denies unknown members and an object has one, the object is refused.
proof fn lemma_unknown_member_refused<V>(
    schema: SchemaView,
    defaults: Seq<Option<V>>,
    read: spec_fn(int, JsonView) -> Result<V, Seq<char>>,
    members: Seq<(Seq<char>, JsonView)>,
    i: int,
)
    requires
        schema.denies_unknown,
        0 <= i < members.len(),
        schema.position(members[i].0) is None,
    ensures
        record_of(schema, defaults, read, JsonView::Object(members)) is Err,
{
    let entries = entries_of(schema, read, members);
    assert(schema.fault(entries, i) is Some);
    schema.lemma_fault(entries, 0, i);
}

/// A member of `update_contact_fields`' parameters that is none of them, such as `email`, is never
/// passed over: the call is refused.
pub proof fn law_unknown_parameter_is_refused(members: Seq<(Seq<char>, JsonView)>, i: int)
    requires
        0 <= i < members.len(),
        !shape_schema(Shape::UpdateContactFields).names.contains(members[i].0),
    ensures
        record(Shape::UpdateContactFields, JsonView::Object(members)) is Err,
{
    let shape = Shape::UpdateContactFields;
    lemma_position(shape_schema(shape), members[i].0, 0);
    lemma_unknown_member_refused(
        shape_schema(shape),
        shape_defaults(shape),
        shape_reads(shape),
        members,
        i,
    );
}

/// A member of a contact's `fields` that is none of the contact's enrichment fields, such as
/// `email`, is never passed over: the fields are refused.
pub proof fn law_unknown_contact_field_is_refused(members: Seq<(Seq<char>, JsonView)>, i: int)
    requires
        0 <= i < members.len(),
        !updates_schema(Updates::Contact).names.contains(members[i].0),
    ensures
        updates_value(Updates::Contact, JsonView::Object(members)) is Err,
{
    let schema = updates_schema(Updates::Contact);
    lemma_position(schema, members[i].0, 0);
    lemma_unknown_member_refused(
        schema,
        updates_defaults(Updates::Contact),
        updates_reads(),
        members,
        i,
    );
}

/// Where an unknown member is the first that a record refuses, the refusal names it, and the fields
/// that there are.
proof fn lemma_refusal_names_the_unknown_member<V>(
    schema: SchemaView,
    defaults: Seq<Option<V>>,
    read: spec_fn(int, JsonView) -> Result<V, Seq<char>>,
    members: Seq<(Seq<char>, JsonView)>,
    i: int,
)
    requires
        schema.denies_unknown,
        0 <= i < members.len(),
        !schema.names.contains(members[i].0),
        schema.first_fault(entries_of(schema, read, members.take(i)), 0) is None,
    ensures
        record_of(schema, defaults, read, JsonView::Object(members)) == Err::<Seq<V>, Seq<char>>(
            unknown_field_text(members[i].0, schema.names),
        ),
{
    lemma_position(schema, members[i].0, 0);
    let entries = entries_of(schema, read, members);
    assert(entries_of(schema, read, members.take(i)) == entries.take(i));
    lemma_first_fault_after(schema, entries, i, 0);
}

/// Where an unknown member of `update_contact_fields`' parameters is the first that is refused, the
/// refusal names it, and the parameters that there are.
pub proof fn law_refusal_names_the_unknown_parameter(members: Seq<(Seq<char>, JsonView)>, i: int)
    requires
        0 <= i < members.len(),
        !shape_schema(Shape::UpdateContactFields).names.contains(members[i].0),
        shape_schema(Shape::UpdateContactFields).first_fault(
            entries_of(
                shape_schema(Shape::UpdateContactFields),
                shape_reads(Shape::UpdateContactFields),
                members.take(i),
            ),
            0,
        ) is None,
    ensures
        record(Shape::UpdateContactFields, JsonView::Object(members)) == Err::<
            Seq<ValueView>,
            Seq<char>,
        >(unknown_field_text(members[i].0, shape_schema(Shape::UpdateContactFields).names)),
{
    let shape = Shape::UpdateContactFields;
    lemma_refusal_names_the_unknown_member(
        shape_schema(shape),
        shape_defaults(shape),
        shape_reads(shape),
        members,
        i,
    );
}

/// Where an unknown member of a contact's `fields` is the first that is refused, the refusal names
/// it, and the fields that there are.
pub proof fn law_refusal_names_the_unknown_contact_field(
    members: Seq<(Seq<char>, JsonView)>,
    i: int,
)
    requires
        0 <= i < members.len(),
        !updates_schema(Updates::Contact).names.contains(members[i].0),
        updates_schema(Updates::Contact).first_fault(
            entries_of(updates_schema(Updates::Contact), updates_reads(), members.take(i)),
            0,
        ) is None,
    ensures
        updates_value(Updates::Contact, JsonView::Object(members)) == Err::<
            Seq<Option<Seq<char>>>,
            Seq<char>,
        >(unknown_field_text(members[i].0, updates_schema(Updates::Contact).names)),
{
    lemma_refusal_names_the_unknown_member(
        updates_schema(Updates::Contact),
        updates_defaults(Updates::Contact),
        updates_reads(),
        members,
        i,
    );
}

/// Where `fields` is the first member of `update_contact_fields`' parameters that is refused, for
/// an unknown member in it, the refusal of the whole call names that member.
pub proof fn law_refusal_of_the_call_names_the_unknown_contact_field(
    members: Seq<(Seq<char>, JsonView)>,
    i: int,
    fields: Seq<(Seq<char>, JsonView)>,
    k: int,
)
    requires
        0 <= i < members.len(),
        members[i] == ("fields"@, JsonView::Object(fields)),
        forall|h: int| 0 <= h < i ==> (#[trigger] members[h]).0 != "fields"@,
        shape_schema(Shape::UpdateContactFields).first_fault(
            entries_of(
                shape_schema(Shape::UpdateContactFields),
                shape_reads(Shape::UpdateContactFields),
                members.take(i),
            ),
            0,
        ) is None,
        0 <= k < fields.len(),
        !updates_schema(Updates::Contact).names.contains(fields[k].0),
        updates_schema(Updates::Contact).first_fault(
            entries_of(updates_schema(Updates::Contact), updates_reads(), fields.take(k)),
            0,
        ) is None,
    ensures
        record(Shape::UpdateContactFields, JsonView::Object(members)) == Err::<
            Seq<ValueView>,
            Seq<char>,
        >(unknown_field_text(fields[k].0, updates_schema(Updates::Contact).names)),
{
    let shape = Shape::UpdateContactFields;
    let schema = shape_schema(shape);
    let read = shape_reads(shape);
    let entries = entries_of(schema, read, members);
    law_refusal_names_the_unknown_contact_field(fields, k);
    lemma_fields_is_second(shape);
    assert(entries_of(schema, read, members.take(i)) == entries.take(i));
    lemma_first_fault_after(schema, entries, i, 0);
    assert(!has_entry(entries.take(i), 1)) by {
        if has_entry(entries.take(i), 1) {
            let w = choose|w: int|
                0 <= w < entries.take(i).len() && entry_is_for(#[trigger] entries.take(i)[w], 1);
            lemma_position(schema, members[w].0, 0);
            assert(members[w].0 == schema.names[1]);
        }
    }
    assert(read(1, members[i].1) == field_value(shape_kinds(shape)[1], members[i].1));
}

/// Where the first entries are not refused, the first refusal is among the rest.
pub(crate) proof fn lemma_first_fault_after<V>(
    schema: SchemaView,
    entries: Seq<EntryView<V>>,
    i: int,
    k: int,
)
    requires
        0 <= k <= i <= entries.len(),
        schema.first_fault(entries.take(i), k) is None,
    ensures
        schema.first_fault(entries, k) == schema.first_fault(entries, i),
    decreases i - k,
{
    if k < i {
        assert(entries.take(i).take(k) == entries.take(k));
        assert(schema.fault(entries.take(i), k) == schema.fault(entries, k));
        lemma_first_fault_after(schema, entries, i, k + 1);
    }
}

/// Where `update_contact_fields` is not refused, nothing in its `fields` is dropped: each member
/// is one of the contact's enrichment fields, and its text, as it was sent, is what the parameters
/// hold for that field.
pub proof fn law_no_contact_field_is_dropped(
    members: Seq<(Seq<char>, JsonView)>,
    i: int,
    fields: Seq<(Seq<char>, JsonView)>,
    k: int,
    p: UpdateContactFieldsParams,
)
    requires
        record(Shape::UpdateContactFields, JsonView::Object(members)) == Ok::<
            Seq<ValueView>,
            Seq<char>,
        >(p.deep_view()),
        0 <= i < members.len(),
        members[i] == ("fields"@, JsonView::Object(fields)),
        0 <= k < fields.len(),
    ensures
        updates_schema(Updates::Contact).names.contains(fields[k].0),
        exists|j: int|
            0 <= j < p.fields@.len() && updates_schema(Updates::Contact).names[j] == fields[k].0
                && optional_text_value(fields[k].1) == Ok::<Option<Seq<char>>, Seq<char>>(
                #[trigger] p.fields@[j],
            ),
{
    let shape = Shape::UpdateContactFields;
    let schema = shape_schema(shape);
    let updates = updates_schema(Updates::Contact);
    lemma_fields_is_second(shape);
    lemma_no_member_dropped(schema, shape_defaults(shape), shape_reads(shape), members, i);
    assert(p.deep_view()[1] == ValueView::Updates(p.fields@));
    assert(field_value(FieldKind::Updates(Updates::Contact), members[i].1) == Ok::<
        ValueView,
        Seq<char>,
    >(ValueView::Updates(p.fields@)));
    if !updates.names.contains(fields[k].0) {
        law_unknown_contact_field_is_refused(fields, k);
    }
    lemma_position(updates, fields[k].0, 0);
    lemma_no_member_dropped(
        updates,
        updates_defaults(Updates::Contact),
        updates_reads(),
        fields,
        k,
    );
}

/// An unknown member in the `fields` of `update_contact_fields` refuses the whole call.
pub proof fn law_unknown_contact_field_refuses_the_call(
    members: Seq<(Seq<char>, JsonView)>,
    i: int,
    fields: Seq<(Seq<char>, JsonView)>,
    k: int,
)
    requires
        0 <= i < members.len(),
        members[i] == ("fields"@, JsonView::Object(fields)),
        0 <= k < fields.len(),
        !updates_schema(Updates::Contact).names.contains(fields[k].0),
    ensures
        record(Shape::UpdateContactFields, JsonView::Object(members)) is Err,
{
    let shape = Shape::UpdateContactFields;
    law_unknown_contact_field_is_refused(fields, k);
    lemma_fields_is_second(shape);
    if record(shape, JsonView::Object(members)) is Ok {
        lemma_no_member_dropped(
            shape_schema(shape),
            shape_defaults(shape),
            shape_reads(shape),
            members,
            i,
        );
        assert(field_value(shape_kinds(shape)[1], members[i].1) is Err);
    }
}

/// Where a tool takes an object as its parameters, no member that one of them has the name of is
/// dropped: the parameter is what the member reads as.
pub proof fn law_no_parameter_is_dropped(
    shape: Shape,
    members: Seq<(Seq<char>, JsonView)>,
    i: int,
)
    requires
        0 <= i < members.len(),
        shape_schema(shape).names.contains(members[i].0),
        record(shape, JsonView::Object(members)) is Ok,
    ensures
        exists|j: int|
            0 <= j < shape_kinds(shape).len() && shape_schema(shape).names[j] == members[i].0
                && field_value(#[trigger] shape_kinds(shape)[j], members[i].1) == Ok::<
                ValueView,
                Seq<char>,
            >(record(shape, JsonView::Object(members))->Ok_0[j]),
{
    let schema = shape_schema(shape);
    lemma_position(schema, members[i].0, 0);
    lemma_no_member_dropped(schema, shape_defaults(shape), shape_reads(shape), members, i);
    let j = schema.position(members[i].0)->Some_0;
    assert(shape_kinds(shape).len() == schema.names.len());
    assert(shape_reads(shape)(j, members[i].1) == field_value(
        shape_kinds(shape)[j],
        members[i].1,
    ));
}

/// Where an object gives a record of updates, no member that one of its fields has the name of is
/// dropped: the text of the field is the one that was sent.
pub proof fn law_no_update_is_dropped(
    updates: Updates,
    members: Seq<(Seq<char>, JsonView)>,
    i: int,
)
    requires
        0 <= i < members.len(),
        updates_schema(updates).names.contains(members[i].0),
        updates_value(updates, JsonView::Object(members)) is Ok,
    ensures
        exists|j: int|
            0 <= j < updates_schema(updates).names.len() && updates_schema(updates).names[j]
                == members[i].0 && optional_text_value(members[i].1) == Ok::<
                Option<Seq<char>>,
                Seq<char>,
            >(#[trigger] updates_value(updates, JsonView::Object(members))->Ok_0[j]),
{
    let schema = updates_schema(updates);
    lemma_position(schema, members[i].0, 0);
    lemma_no_member_dropped(schema, updates_defaults(updates), updates_reads(), members, i);
}

/// Where no member has a field's name, none gives it a value.
pub(crate) proof fn lemma_absent_has_no_value<V>(
    schema: SchemaView,
    read: spec_fn(int, JsonView) -> Result<V, Seq<char>>,
    members: Seq<(Seq<char>, JsonView)>,
    j: int,
)
    requires
        0 <= j < schema.names.len(),
        forall|i: int| 0 <= i < members.len() ==> (#[trigger] members[i]).0 != schema.names[j],
    ensures
        entry_value(entries_of(schema, read, members), j) is None,
{
    if entry_value(entries_of(schema, read, members), j) is Some {
        let i = lemma_entry_value_is_read(schema, read, members, j);
        lemma_position(schema, members[i].0, 0);
    }
}

/// A parameter that the caller leaves out has its default: none for an optional one, false for a
/// flag, a record of no updates for `fields`.
pub proof fn law_absent_parameter_has_its_default(
    shape: Shape,
    members: Seq<(Seq<char>, JsonView)>,
    j: int,
)
    requires
        0 <= j < shape_kinds(shape).len(),
        forall|i: int|
            0 <= i < members.len() ==> (#[trigger] members[i]).0 != shape_schema(shape).names[j],
        record(shape, JsonView::Object(members)) is Ok,
    ensures
        field_default(shape_kinds(shape)[j]) == Some(
            record(shape, JsonView::Object(members))->Ok_0[j],
        ),
{
    let schema = shape_schema(shape);
    let entries = entries_of(schema, shape_reads(shape), members);
    assert(shape_kinds(shape).len() == schema.names.len());
    lemma_absent_has_no_value(schema, shape_reads(shape), members, j);
    schema.lemma_none_missing(shape_defaults(shape), entries, 0);
    assert(filled(shape_defaults(shape), entries, j) is Some);
}

/// A parameter that has no default cannot be left out: the call is refused.
pub proof fn law_missing_parameter_is_refused(
    shape: Shape,
    members: Seq<(Seq<char>, JsonView)>,
    j: int,
)
    requires
        0 <= j < shape_kinds(shape).len(),
        field_default(shape_kinds(shape)[j]) is None,
        forall|i: int|
            0 <= i < members.len() ==> (#[trigger] members[i]).0 != shape_schema(shape).names[j],
    ensures
        record(shape, JsonView::Object(members)) is Err,
{
    if record(shape, JsonView::Object(members)) is Ok {
        law_absent_parameter_has_its_default(shape, members, j);
    }
}

/// An optional text and an integer that may be sent as a string take `null` for the default that
/// they have where they are left out.
pub proof fn law_null_stands_for_the_default(kind: FieldKind)
    requires
        kind is OptionalText || kind is FlexibleInteger,
    ensures
        field_default(kind) is Some,
        field_value(kind, JsonView::Null) == Ok::<ValueView, Seq<char>>(
            field_default(kind)->Some_0,
        ),
{
}

/// Each name is at the position of its field.
proof fn lemma_position_of_name(updates: Updates, j: int)
    requires
        0 <= j < updates_schema(updates).names.len(),
    ensures
        updates_schema(updates).position(updates_schema(updates).names[j]) == Some(j),
{
    let schema = updates_schema(updates);
    lemma_position(schema, schema.names[j], 0);
    let k = schema.position(schema.names[j])->Some_0;
    if k < j {
        law_update_names_are_distinct(updates, k, j);
    } else if j < k {
        law_update_names_are_distinct(updates, j, k);
    }
}

/// Where none of the entries is refused, there is no first that is.
pub(crate) proof fn lemma_first_fault_none<V>(
    schema: SchemaView,
    entries: Seq<EntryView<V>>,
    i: int,
)
    requires
        0 <= i,
        forall|k: int| 0 <= k < entries.len() ==> #[trigger] schema.fault(entries, k) is None,
    ensures
        schema.first_fault(entries, i) is None,
    decreases entries.len() - i,
{
    if i < entries.len() {
        lemma_first_fault_none(schema, entries, i + 1);
    }
}

/// Where every field has a value, there is no first that lacks one.
pub(crate) proof fn lemma_first_missing_none<V>(
    schema: SchemaView,
    defaults: Seq<Option<V>>,
    entries: Seq<EntryView<V>>,
    j: int,
)
    requires
        0 <= j,
        forall|k: int| 0 <= k < schema.names.len()
            ==> #[trigger] filled(defaults, entries, k) is Some,
    ensures
        schema.first_missing(defaults, entries, j) is None,
    decreases schema.names.len() - j,
{
    if j < schema.names.len() {
        lemma_first_missing_none(schema, defaults, entries, j + 1);
    }
}

/// A record of updates written as JSON reads back as the same record.
pub proof fn law_updates_read_back(updates: Updates, texts: Seq<Option<Seq<char>>>)
    requires
        texts.len() == updates_schema(updates).names.len(),
    ensures
        updates_value(updates, updates_json(updates, texts)) == Ok::<
            Seq<Option<Seq<char>>>,
            Seq<char>,
        >(texts),
{
    let schema = updates_schema(updates);
    let defaults = updates_defaults(updates);
    let members = updates_json(updates, texts)->Object_0;
    let entries = entries_of(schema, updates_reads(), members);
    assert forall|j: int| 0 <= j < entries.len() implies #[trigger] entries[j] == EntryView::Known(
        j,
        Ok::<Option<Seq<char>>, Seq<char>>(texts[j]),
    ) by {
        lemma_position_of_name(updates, j);
    }
    assert forall|k: int| 0 <= k < entries.len()
        implies #[trigger] schema.fault(entries, k) is None by {
        if has_entry(entries.take(k), k) {
            let w = choose|w: int|
                0 <= w < entries.take(k).len() && entry_is_for(#[trigger] entries.take(k)[w], k);
            assert(entries[w]->Known_0 == w);
        }
    }
    lemma_first_fault_none(schema, entries, 0);
    assert forall|j: int| 0 <= j < schema.names.len() implies #[trigger] filled(
        defaults,
        entries,
        j,
    ) == Some(texts[j]) by {
        lemma_entry_fills_its_field(schema, entries, entries.len() as int, j);
        assert(entries.take(entries.len() as int) == entries);
    }
    lemma_first_missing_none(schema, defaults, entries, 0);
    assert(updates_value(updates, JsonView::Object(members))->Ok_0 == texts);
}

/// In the shapes that have it, `fields` is the second parameter.
proof fn lemma_fields_is_second(shape: Shape)
    requires
        shape is UpdateContactFields || shape is UpdateCompanyFields,
    ensures
        shape_schema(shape).position("fields"@) == Some(1int),
{
    reveal_strlit("contact_id");
    reveal_strlit("company_id");
    reveal_strlit("fields");
    assert("contact_id"@.len() != "fields"@.len());
    assert("company_id"@.len() != "fields"@.len());
    assert(shape_schema(shape).names[1] == "fields"@);
    reveal_with_fuel(SchemaView::position_from, 2);
}

/// An entry that is neither known nor denied makes no difference to the values.
proof fn lemma_unknown_entry_gives_nothing<V>(entries: Seq<EntryView<V>>, i: int, j: int)
    requires
        0 <= i < entries.len(),
        entries[i] is Unknown,
    ensures
        entry_value(entries.remove(i), j) == entry_value(entries, j),
    decreases entries.len(),
{
    if i == entries.len() - 1 {
        assert(entries.remove(i) == entries.drop_last());
    } else {
        assert(entries.remove(i).last() == entries.last());
        assert(entries.remove(i).drop_last() == entries.drop_last().remove(i));
        lemma_unknown_entry_gives_nothing(entries.drop_last(), i, j);
    }
}

/// An entry that is neither known nor denied makes no difference to the refusals after it.
proof fn lemma_unknown_entry_refuses_nothing<V>(
    schema: SchemaView,
    entries: Seq<EntryView<V>>,
    i: int,
    k: int,
)
    requires
        !schema.denies_unknown,
        0 <= i < entries.len(),
        entries[i] is Unknown,
        0 <= k <= entries.len(),
    ensures
        schema.first_fault(entries, k) == schema.first_fault(
            entries.remove(i),
            if k <= i {
                k
            } else {
                k - 1
            },
        ),
    decreases entries.len() - k,
{
    let rest = entries.remove(i);
    if k < entries.len() {
        lemma_unknown_entry_refuses_nothing(schema, entries, i, k + 1);
        if k < i {
            assert(rest.take(k) == entries.take(k));
        } else if k > i {
            assert(rest[k - 1] == entries[k]);
            let before = entries.take(k);
            assert(rest.take(k - 1) == before.remove(i));
            if let EntryView::Known(j, _) = entries[k] {
                if has_entry(before, j) {
                    let w = choose|w: int|
                        0 <= w < before.len() && entry_is_for(#[trigger] before[w], j);
                    assert(entry_is_for(
                        before.remove(i)[if w < i {
                            w
                        } else {
                            w - 1
                        }],
                        j,
                    ));
                }
                if has_entry(before.remove(i), j) {
                    let w = choose|w: int|
                        0 <= w < before.remove(i).len() && entry_is_for(
                            #[trigger] before.remove(i)[w],
                            j,
                        );
                    assert(entry_is_for(
                        before[if w < i {
                            w
                        } else {
                            w + 1
                        }],
                        j,
                    ));
                }
            }
        }
    }
}

/// A tool that does not deny unknown members passes them over: without such a member, its
/// parameters are the same.
pub proof fn law_tolerated_member_is_passed_over(
    shape: Shape,
    members: Seq<(Seq<char>, JsonView)>,
    i: int,
)
    requires
        !shape_schema(shape).denies_unknown,
        0 <= i < members.len(),
        !shape_schema(shape).names.contains(members[i].0),
    ensures
        record(shape, JsonView::Object(members.remove(i))) == record(
            shape,
            JsonView::Object(members),
        ),
{
    let schema = shape_schema(shape);
    let defaults = shape_defaults(shape);
    let entries = entries_of(schema, shape_reads(shape), members);
    let rest = entries.remove(i);
    lemma_position(schema, members[i].0, 0);
    assert(entries_of(schema, shape_reads(shape), members.remove(i)) == rest);
    lemma_unknown_entry_refuses_nothing(schema, entries, i, 0);
    assert forall|j: int| entry_value(rest, j) == entry_value(entries, j) by {
        lemma_unknown_entry_gives_nothing(entries, i, j);
    }
    lemma_same_values_same_record(schema, defaults, entries, rest, 0);
}

/// Entries that give the same values leave the same fields missing.
proof fn lemma_same_values_same_record<V>(
    schema: SchemaView,
    defaults: Seq<Option<V>>,
    entries: Seq<EntryView<V>>,
    others: Seq<EntryView<V>>,
    j: int,
)
    requires
        0 <= j,
        forall|k: int| entry_value(others, k) == entry_value(entries, k),
    ensures
        schema.first_missing(defaults, others, j) == schema.first_missing(defaults, entries, j),
        Seq::new(schema.names.len(), |k: int| filled(defaults, others, k)->Some_0) == Seq::new(
            schema.names.len(),
            |k: int| filled(defaults, entries, k)->Some_0,
        ),
    decreases schema.names.len() - j,
{
    if j < schema.names.len() {
        lemma_same_values_same_record(schema, defaults, entries, others, j + 1);
    }
}

/// A caller that sends an integer parameter as a string is understood as one that sends the
/// number: where the field of a member takes either, the parameters are the same.
pub proof fn law_string_for_number_makes_no_difference(
    shape: Shape,
    members: Seq<(Seq<char>, JsonView)>,
    i: int,
    j: int,
    number: JsonNumberView,
    n: i64,
)
    requires
        0 <= i < members.len(),
        shape_schema(shape).position(members[i].0) == Some(j),
        0 <= j < shape_kinds(shape).len(),
        shape_kinds(shape)[j] is FlexibleInteger,
        number.integer == Some(n),
    ensures
        record(
            shape,
            JsonView::Object(
                members.update(i, (members[i].0, JsonView::Text(decimal(n as int)))),
            ),
        ) == record(
            shape,
            JsonView::Object(members.update(i, (members[i].0, JsonView::Number(number)))),
        ),
{
    law_numeric_string_is_the_number(n);
    let as_text = members.update(i, (members[i].0, JsonView::Text(decimal(n as int))));
    let as_number = members.update(i, (members[i].0, JsonView::Number(number)));
    assert(entries_of(shape_schema(shape), shape_reads(shape), as_text) == entries_of(
        shape_schema(shape),
        shape_reads(shape),
        as_number,
    ));
}

/// The fields of a record of updates have names of their own, each for one field.
pub proof fn law_update_names_are_distinct(updates: Updates, i: int, j: int)
    requires
        0 <= i < j < updates_schema(updates).names.len(),
    ensures
        updates_schema(updates).names[i] != updates_schema(updates).names[j],
{
    match updates {
        Updates::Company => {
            reveal_strlit("url");
            reveal_strlit("industry");
            reveal_strlit("category");
            reveal_strlit("size_range");
            reveal_strlit("description");
            reveal_strlit("hq_location");
            reveal_strlit("stock_symbol");
            reveal_strlit("main_phone");
            assert("url"@.len() == 3);
            assert("industry"@.len() == 8);
            assert("category"@.len() == 8);
            assert("size_range"@.len() == 10);
            assert("description"@.len() == 11);
            assert("hq_location"@.len() == 11);
            assert("stock_symbol"@.len() == 12);
            assert("main_phone"@.len() == 10);
            assert("industry"@[0] != "category"@[0]);
            assert("size_range"@[0] != "main_phone"@[0]);
            assert("description"@[0] != "hq_location"@[0]);
        },
        Updates::Contact => {
            reveal_strlit("schools_attended");
            reveal_strlit("previous_companies");
            reveal_strlit("previous_positions");
            reveal_strlit("geographic_location");
            reveal_strlit("ai_research_summary");
            reveal_strlit("mobile_phone");
            reveal_strlit("home_phone");
            reveal_strlit("business_phone");
            reveal_strlit("home_address");
            reveal_strlit("websites");
            reveal_strlit("instant_message");
            reveal_strlit("birthday");
            reveal_strlit("secondary_email");
            assert("schools_attended"@.len() == 16);
            assert("previous_companies"@.len() == 18);
            assert("previous_positions"@.len() == 18);
            assert("geographic_location"@.len() == 19);
            assert("ai_research_summary"@.len() == 19);
            assert("mobile_phone"@.len() == 12);
            assert("home_phone"@.len() == 10);
            assert("business_phone"@.len() == 14);
            assert("home_address"@.len() == 12);
            assert("websites"@.len() == 8);
            assert("instant_message"@.len() == 15);
            assert("birthday"@.len() == 8);
            assert("secondary_email"@.len() == 15);
            assert("previous_companies"@[9] != "previous_positions"@[9]);
            assert("geographic_location"@[0] != "ai_research_summary"@[0]);
            assert("mobile_phone"@[0] != "home_address"@[0]);
            assert("websites"@[0] != "birthday"@[0]);
            assert("instant_message"@[0] != "secondary_email"@[0]);
        },
    }
}

/// The parameters of a tool have names of their own, each for one parameter.
pub proof fn law_parameter_names_are_distinct(shape: Shape, i: int, j: int)
    requires
        0 <= i < j < shape_schema(shape).names.len(),
    ensures
        shape_schema(shape).names[i] != shape_schema(shape).names[j],
{
    reveal_strlit("query");
    reveal_strlit("status");
    reveal_strlit("limit");
    reveal_strlit("offset");
    reveal_strlit("contact_id");
    reveal_strlit("field");
    reveal_strlit("value");
    reveal_strlit("company_id");
    reveal_strlit("new_name");
    reveal_strlit("fields");
    reveal_strlit("overwrite");
    reveal_strlit("write_mode");
    assert("query"@.len() == 5);
    assert("status"@.len() == 6);
    assert("limit"@.len() == 5);
    assert("offset"@.len() == 6);
    assert("contact_id"@.len() == 10);
    assert("field"@.len() == 5);
    assert("value"@.len() == 5);
    assert("company_id"@.len() == 10);
    assert("new_name"@.len() == 8);
    assert("fields"@.len() == 6);
    assert("overwrite"@.len() == 9);
    assert("write_mode"@.len() == 10);
    assert("query"@[0] != "limit"@[0]);
    assert("status"@[0] != "offset"@[0]);
    assert("field"@[0] != "value"@[0]);
    assert("contact_id"@[0] != "write_mode"@[0]);
}

// ---- The server ------------------------------------------------------------------------------

/// Where the caller of a search gives no status, the one that holds is the backend's own default,
/// whatever it is; where the caller gives one, it is that one.
pub proof fn law_omitted_status_is_the_backends_own<B>(
    server: McpServer<B>,
    p: SearchContactsParams,
    call: BackendCall,
    own: Seq<char>,
)
    requires
        call_ensures(McpServer::<B>::search_contacts, (&server, p), call),
    ensures
        call matches BackendCall::SearchContacts { status, .. } && {
            &&& p.status is None ==> text_or(status.deep_view(), own) == own
            &&& p.status matches Some(given) ==> text_or(status.deep_view(), own) == given@
        },
{
}

/// A server, and every clone of it, has the backend that it was made over, and the name and the
/// instructions that it was given.
pub proof fn law_clone_serves_the_same_backend<B: Clone>(
    backend: B,
    server_name: &'static str,
    instructions: &'static str,
    server: McpServer<B>,
    clone: McpServer<B>,
    served: &Arc<B>,
    served_by_clone: &Arc<B>,
)
    requires
        call_ensures(McpServer::<B>::new, (backend, server_name, instructions), server),
        call_ensures(<McpServer<B> as Clone>::clone, (&server,), clone),
        call_ensures(McpServer::<B>::backend, (&server,), served),
        call_ensures(McpServer::<B>::backend, (&clone,), served_by_clone),
    ensures
        **served == backend,
        **served_by_clone == backend,
        clone.name_view() == server_name@,
        clone.instructions_view() == instructions@,
{
}

// ---- Replies --------------------------------------------------------------------------------

/// The number of all matches is what the backend said it is, whatever the page holds: two pages
/// with the same text have the same total.
pub proof fn law_total_is_told_apart_from_the_page(
    total: i64,
    results: Seq<Seq<char>>,
    other_total: i64,
    other_results: Seq<Seq<char>>,
)
    requires
        search_contacts_text(total, results) == search_contacts_text(other_total, other_results),
    ensures
        total == other_total,
{
    let start = "{\"total_matches\":"@;
    let rest = ",\"results\":"@ + array_text(results) + "}"@;
    let other_rest = ",\"results\":"@ + array_text(other_results) + "}"@;
    let a = decimal(total as int);
    let b = decimal(other_total as int);
    let whole = search_contacts_text(total, results);
    assert(whole == start + a + rest);
    assert(whole == start + b + other_rest);
    reveal_strlit(",\"results\":");
    assert(rest[0] == ',');
    assert(other_rest[0] == ',');
    lemma_decimal_has_no_comma(total as int);
    lemma_decimal_has_no_comma(other_total as int);
    if a.len() < b.len() {
        assert(whole[(start.len() + a.len()) as int] == ',');
        assert(whole[(start.len() + a.len()) as int] == b[a.len() as int]);
    } else if b.len() < a.len() {
        assert(whole[(start.len() + b.len()) as int] == ',');
        assert(whole[(start.len() + b.len()) as int] == a[b.len() as int]);
    }
    assert forall|k: int| 0 <= k < a.len() implies a[k] == b[k] by {
        assert(whole[start.len() + k] == a[k]);
        assert(whole[start.len() + k] == b[k]);
    }
    assert(a == b);
    lemma_decimal_reads_back(total as int);
    lemma_decimal_reads_back(other_total as int);
}

/// No part of a decimal text is a comma.
proof fn lemma_decimal_has_no_comma(n: int)
    ensures
        forall|i: int| 0 <= i < decimal(n).len() ==> #[trigger] decimal(n)[i] != ',',
{
    let magnitude = if n < 0 {
        (-n) as nat
    } else {
        n as nat
    };
    lemma_decimal_nat_reads_back(magnitude);
    assert forall|i: int| 0 <= i < decimal(n).len() implies #[trigger] decimal(n)[i] != ',' by {
        if n < 0 {
            if i > 0 {
                assert(is_digit(decimal_nat(magnitude)[i - 1]));
            }
        } else {
            assert(is_digit(decimal_nat(magnitude)[i]));
        }
    }
}

/// A backup that succeeds is reported under the path of the call that asked for it.
pub proof fn law_backup_tells_the_path_of_the_call<E>(
    call: BackendCall,
    path: String,
    reply: BackendReply<E>,
)
    requires
        call == (BackendCall::BackupVault { path }),
        answers(call, reply),
        reply_error(reply) is None,
    ensures
        reply_text(reply) == "{\"backed_up_to\":"@ + quoted(path@) + "}"@,
{
}

/// A call that the backend answers without an error is answered in the form of its own tool.
pub proof fn law_call_is_answered_in_its_own_form<E>(call: BackendCall, reply: BackendReply<E>)
    requires
        answers(call, reply),
        reply_error(reply) is None,
    ensures
        has_form_for(call, reply_text(reply)),
{
}

/// That no company has the name asked for is an answer, not an error.
pub proof fn law_company_not_found_is_no_error<E>(company: Option<String>, contacts: Vec<String>)
    ensures
        reply_error::<E>(BackendReply::CompanyNetwork(Ok((false, company, contacts)))) is None,
{
}

/// What a backend leaves out, it refuses: the caller of an update or of a backup that the backend
/// does not support gets an error, not a success that wrote nothing.
pub proof fn law_unsupported_operation_is_an_error<E: From<&'static str>>(
    company_update: Result<CompanyFieldsWriteResult<String>, E>,
    contact_update: Result<ContactFieldsWriteResult<String>, E>,
    path: String,
    backup: Result<(), E>,
)
    requires
        call_ensures(default_update_company_fields::<String, E>, (), company_update),
        call_ensures(default_update_contact_fields::<String, E>, (), contact_update),
        call_ensures(default_backup_vault::<E>, (), backup),
    ensures
        reply_error(BackendReply::UpdateCompanyFields(company_update)) is Some,
        reply_error(BackendReply::UpdateContactFields(contact_update)) is Some,
        reply_error(BackendReply::BackupVault(path, backup)) is Some,
{
}

/// A listing that the backend does not support has nothing in it, and is no error.
pub proof fn law_unsupported_listing_is_empty<E>(
    companies: Result<Vec<String>, E>,
    contacts: Result<Vec<String>, E>,
)
    requires
        call_ensures(default_list_companies_needing_enrichment::<String, E>, (), companies),
        call_ensures(default_list_contacts_needing_enrichment::<String, E>, (), contacts),
    ensures
        reply_error(BackendReply::ListCompaniesNeedingEnrichment(companies)) is None,
        reply_text(BackendReply::ListCompaniesNeedingEnrichment(companies))
            == "{\"companies\":[]}"@,
        reply_error(BackendReply::ListContactsNeedingEnrichment(contacts)) is None,
        reply_text(BackendReply::ListContactsNeedingEnrichment(contacts)) == "{\"contacts\":[]}"@,
{
    assert(companies->Ok_0.deep_view() == Seq::<Seq<char>>::empty());
    assert(contacts->Ok_0.deep_view() == Seq::<Seq<char>>::empty());
    reveal_strlit("{\"companies\":");
    reveal_strlit("{\"companies\":[]}");
    reveal_strlit("{\"contacts\":");
    reveal_strlit("{\"contacts\":[]}");
    reveal_strlit("[");
    reveal_strlit("]");
    reveal_strlit("}");
    assert("{\"companies\":"@ + array_text(Seq::empty()) + "}"@
        == "{\"companies\":[]}"@);
    assert("{\"contacts\":"@ + array_text(Seq::empty()) + "}"@
        == "{\"contacts\":[]}"@);
}

} // verus!
