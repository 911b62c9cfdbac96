//! Shapes: which fields each tool's parameters have, and what each field takes.

use vstd::prelude::*;

use crate::error::DecodeError;
use crate::flexible::{debug_text, deserialize_flexible_i64, flexible_i64, quote_debug};
use crate::json::{JsonValue, JsonView};
use crate::record::{
    entry_value, filled, outcome, outcomes, Entry, EntryView, Schema, SchemaView,
};

verus! {

/// What a JSON value is called in the refusal of it.
pub open spec fn unexpected(v: JsonView) -> Seq<char> {
    match v {
        JsonView::Null => "null"@,
        JsonView::Bool(b) => if b {
            "boolean `true`"@
        } else {
            "boolean `false`"@
        },
        JsonView::Number(n) => if n.integer is Some || n.unsigned is Some {
            "integer `"@ + n.text + "`"@
        } else {
            "floating point `"@ + n.text + "`"@
        },
        JsonView::Text(s) => "string "@ + debug_text(s),
        JsonView::Array(_) => "sequence"@,
        JsonView::Object(_) => "map"@,
    }
}

/// The refusal of a value of the wrong type.
pub open spec fn invalid_type_text(v: JsonView, expected: Seq<char>) -> Seq<char> {
    "invalid type: "@ + unexpected(v) + ", expected "@ + expected
}

/// The refusal of a value of the right type that is out of range.
pub open spec fn invalid_value_text(v: JsonView, expected: Seq<char>) -> Seq<char> {
    "invalid value: "@ + unexpected(v) + ", expected "@ + expected
}

/// The text that a value gives a field that must have one.
pub open spec fn text_value(v: JsonView) -> Result<Seq<char>, Seq<char>> {
    match v {
        JsonView::Text(s) => Ok(s),
        _ => Err(invalid_type_text(v, "a string"@)),
    }
}

/// The text, or none, that a value gives a field that may go without.
pub open spec fn optional_text_value(v: JsonView) -> Result<Option<Seq<char>>, Seq<char>> {
    match v {
        JsonView::Null => Ok(None),
        JsonView::Text(s) => Ok(Some(s)),
        _ => Err(invalid_type_text(v, "a string"@)),
    }
}

/// The integer that a value gives.
pub open spec fn integer_value(v: JsonView) -> Result<i64, Seq<char>> {
    match v {
        JsonView::Number(n) => match n.integer {
            Some(i) => Ok(i),
            None => if n.unsigned is Some {
                Err(invalid_value_text(v, "i64"@))
            } else {
                Err(invalid_type_text(v, "i64"@))
            },
        },
        _ => Err(invalid_type_text(v, "i64"@)),
    }
}

/// The truth value that a value gives.
pub open spec fn flag_value(v: JsonView) -> Result<bool, Seq<char>> {
    match v {
        JsonView::Bool(b) => Ok(b),
        _ => Err(invalid_type_text(v, "a boolean"@)),
    }
}

/// The integers that the items of an array give, or the refusal of the first that gives none.
pub open spec fn integers(items: Seq<JsonView>) -> Result<Seq<i64>, Seq<char>>
    decreases items.len(),
{
    if items.len() == 0 {
        Ok(Seq::empty())
    } else {
        match integers(items.drop_last()) {
            Err(e) => Err(e),
            Ok(ns) => match integer_value(items.last()) {
                Err(e) => Err(e),
                Ok(n) => Ok(ns.push(n)),
            },
        }
    }
}

/// The list of integers that a value gives.
pub open spec fn integers_value(v: JsonView) -> Result<Seq<i64>, Seq<char>> {
    match v {
        JsonView::Array(items) => integers(items),
        _ => Err(invalid_type_text(v, "a sequence"@)),
    }
}

/// The members of an object, next to a record whose field at position `j` reads a value by
/// `read(j, _)`.
pub open spec fn entries_of<V>(
    schema: SchemaView,
    read: spec_fn(int, JsonView) -> Result<V, Seq<char>>,
    members: Seq<(Seq<char>, JsonView)>,
) -> Seq<EntryView<V>> {
    members.map_values(
        |m: (Seq<char>, JsonView)|
            match schema.position(m.0) {
                Some(j) => EntryView::Known(j, read(j, m.1)),
                None => EntryView::Unknown(m.0),
            },
    )
}

/// What the items of an array give the fields of a record, those that have one.
pub open spec fn items_of<V>(
    schema: SchemaView,
    read: spec_fn(int, JsonView) -> Result<V, Seq<char>>,
    items: Seq<JsonView>,
) -> Seq<Result<V, Seq<char>>> {
    Seq::new(
        if items.len() < schema.names.len() {
            items.len()
        } else {
            schema.names.len()
        },
        |j: int| read(j, items[j]),
    )
}

/// The values that a JSON value gives the fields of a record: an object by its members, an array
/// by its items, and nothing else does.
pub open spec fn record_of<V>(
    schema: SchemaView,
    defaults: Seq<Option<V>>,
    read: spec_fn(int, JsonView) -> Result<V, Seq<char>>,
    v: JsonView,
) -> Result<Seq<V>, Seq<char>> {
    match v {
        JsonView::Object(members) => schema.from_entries(
            defaults,
            entries_of(schema, read, members),
        ),
        JsonView::Array(items) => schema.from_items(
            defaults,
            items_of(schema, read, items),
            items.len(),
        ),
        _ => Err(invalid_type_text(v, "struct "@ + schema.title)),
    }
}

/// What a JSON value is called in the refusal of it.
fn name_unexpected(value: &JsonValue) -> (r: String)
    ensures
        r@ == unexpected(value@),
{
    match value {
        JsonValue::Null => "null".to_string(),
        JsonValue::Bool(b) => if *b {
            "boolean `true`".to_string()
        } else {
            "boolean `false`".to_string()
        },
        JsonValue::Number(n) => {
            let start = if n.integer.is_some() || n.unsigned.is_some() {
                "integer `".to_string()
            } else {
                "floating point `".to_string()
            };
            start.concat(n.text.as_str()).concat("`")
        },
        JsonValue::Text(s) => "string ".to_string().concat(quote_debug(s.as_str()).as_str()),
        JsonValue::Array(_) => "sequence".to_string(),
        JsonValue::Object(_) => "map".to_string(),
    }
}

/// The refusal of a value of the wrong type.
fn invalid_type(value: &JsonValue, expected: &str) -> (r: DecodeError)
    ensures
        r.message@ == invalid_type_text(value@, expected@),
{
    DecodeError {
        message: "invalid type: ".to_string().concat(name_unexpected(value).as_str()).concat(
            ", expected ",
        ).concat(expected),
    }
}

/// Reads a text.
fn read_text(value: &JsonValue) -> (r: Result<String, DecodeError>)
    ensures
        outcome(r) == text_value(value@),
{
    match value {
        JsonValue::Text(s) => Ok(s.clone()),
        _ => Err(invalid_type(value, "a string")),
    }
}

/// Reads an optional text.
fn read_optional_text(value: &JsonValue) -> (r: Result<Option<String>, DecodeError>)
    ensures
        outcome(r) == optional_text_value(value@),
{
    match value {
        JsonValue::Null => Ok(None),
        JsonValue::Text(s) => Ok(Some(s.clone())),
        _ => Err(invalid_type(value, "a string")),
    }
}

/// Reads an integer.
fn read_integer(value: &JsonValue) -> (r: Result<i64, DecodeError>)
    ensures
        outcome(r) == integer_value(value@),
{
    match value {
        JsonValue::Number(n) => match n.integer {
            Some(i) => Ok(i),
            None => if n.unsigned.is_some() {
                Err(
                    DecodeError {
                        message: "invalid value: ".to_string().concat(
                            name_unexpected(value).as_str(),
                        ).concat(", expected ").concat("i64"),
                    },
                )
            } else {
                Err(invalid_type(value, "i64"))
            },
        },
        _ => Err(invalid_type(value, "i64")),
    }
}

/// Reads a truth value.
fn read_flag(value: &JsonValue) -> (r: Result<bool, DecodeError>)
    ensures
        outcome(r) == flag_value(value@),
{
    match value {
        JsonValue::Bool(b) => Ok(*b),
        _ => Err(invalid_type(value, "a boolean")),
    }
}

/// A refusal among the first items is the refusal of all.
proof fn lemma_integers_prefix(items: Seq<JsonView>, n: int)
    requires
        0 <= n <= items.len(),
        integers(items.take(n)) is Err,
    ensures
        integers(items) == integers(items.take(n)),
    decreases items.len(),
{
    if n == items.len() {
        assert(items.take(n) == items);
    } else {
        assert(items.drop_last().take(n) == items.take(n));
        lemma_integers_prefix(items.drop_last(), n);
    }
}

/// Reads a list of integers.
fn read_integers(value: &JsonValue) -> (r: Result<Vec<i64>, DecodeError>)
    ensures
        outcome(r) == integers_value(value@),
{
    match value {
        JsonValue::Array(items) => {
            let ghost views = value@->Array_0;
            let mut ns: Vec<i64> = Vec::new();
            assert(views.take(0) == Seq::<JsonView>::empty());
            for i in 0..items.len()
                invariant
                    value@ == JsonView::Array(views),
                    *value == JsonValue::Array(*items),
                    integers(views.take(i as int)) == Ok::<Seq<i64>, Seq<char>>(ns@),
            {
                assert(views[i as int] == items@[i as int]@);
                assert(views.take(i + 1).drop_last() == views.take(i as int));
                match read_integer(&items[i]) {
                    Ok(n) => {
                        ns.push(n);
                    },
                    Err(e) => {
                        proof {
                            lemma_integers_prefix(views, i + 1);
                        }
                        return Err(e);
                    },
                }
            }
            assert(views.take(items@.len() as int) == views);
            assert(ns.deep_view() == ns@);
            Ok(ns)
        },
        _ => Err(invalid_type(value, "a sequence")),
    }
}

/// Reads a record, whose field at position `j` reads a value by `read(j, _)`.
fn read_record<T: DeepView, F: Fn(usize, &JsonValue) -> Result<T, DecodeError>>(
    schema: &Schema,
    defaults: Vec<Option<T>>,
    value: &JsonValue,
    read: F,
    Ghost(reads): Ghost<spec_fn(int, JsonView) -> Result<T::V, Seq<char>>>,
) -> (r: Result<Vec<T>, DecodeError>)
    requires
        defaults.len() == schema.names.len(),
        forall|j: usize, v: &JsonValue| j < schema.names.len() ==> call_requires(read, (j, v)),
        forall|j: usize, v: &JsonValue, r: Result<T, DecodeError>|
            call_ensures(read, (j, v), r) ==> outcome(r) == reads(j as int, v@),
    ensures
        outcome(r) == record_of(schema@, defaults.deep_view(), reads, value@),
{
    match value {
        JsonValue::Object(members) => {
            let ghost views = value@->Object_0;
            let mut entries: Vec<Entry<T>> = Vec::new();
            for i in 0..members.len()
                invariant
                    *value == JsonValue::Object(*members),
                    value@ == JsonView::Object(views),
                    forall|j: usize, v: &JsonValue|
                        j < schema.names.len() ==> call_requires(read, (j, v)),
                    forall|j: usize, v: &JsonValue, r: Result<T, DecodeError>|
                        call_ensures(read, (j, v), r) ==> outcome(r) == reads(j as int, v@),
                    entries.len() == i,
                    forall|k: int|
                        0 <= k < i ==> (#[trigger] entries@[k]).deep_view() == entries_of(
                            schema@,
                            reads,
                            views,
                        )[k],
                    forall|k: int|
                        0 <= k < i ==> (#[trigger] entries@[k] matches Entry::Known(j, _) ==> j
                            < schema.names.len()),
            {
                assert(views[i as int] == (members@[i as int].0@, members@[i as int].1@));
                match schema.find(&members[i].0) {
                    Some(j) => {
                        entries.push(Entry::Known(j, read(j, &members[i].1)));
                    },
                    None => {
                        entries.push(Entry::Unknown(members[i].0.clone()));
                    },
                }
            }
            assert(entries.deep_view() == entries_of(schema@, reads, views));
            schema.fill_from_entries(defaults, entries)
        },
        JsonValue::Array(items) => {
            let ghost views = value@->Array_0;
            let mut given: Vec<Result<T, DecodeError>> = Vec::new();
            let mut j: usize = 0;
            while j < items.len() && j < schema.names.len()
                invariant
                    *value == JsonValue::Array(*items),
                    value@ == JsonView::Array(views),
                    forall|j: usize, v: &JsonValue|
                        j < schema.names.len() ==> call_requires(read, (j, v)),
                    forall|j: usize, v: &JsonValue, r: Result<T, DecodeError>|
                        call_ensures(read, (j, v), r) ==> outcome(r) == reads(j as int, v@),
                    j <= items.len(),
                    j <= schema.names.len(),
                    given.len() == j,
                    forall|k: int|
                        0 <= k < j ==> outcome(#[trigger] given@[k]) == reads(k, views[k]),
                decreases items.len() - j,
            {
                assert(views[j as int] == items@[j as int]@);
                given.push(read(j, &items[j]));
                j += 1;
            }
            assert(outcomes(given@) == items_of(schema@, reads, views));
            schema.fill_from_items(defaults, given, items.len())
        },
        _ => Err(invalid_type(value, "struct ".to_string().concat(schema.title).as_str())),
    }
}

/// The two records of optional texts that update a company or a contact.
#[derive(Debug, Clone, Copy)]
pub enum Updates {
    Company,
    Contact,
}

/// What a field takes, and what it has where nothing is given.
#[derive(Debug, Clone, Copy)]
pub enum FieldKind {
    /// A string. Must be given.
    Text,
    /// A string or `null`. Else none.
    OptionalText,
    /// A number, a string that writes one, or `null`. Else none.
    FlexibleInteger,
    /// A number. Must be given.
    Integer,
    /// A truth value. Else false.
    Flag,
    /// An array of numbers. Must be given.
    IntegerList,
    /// A record of optional texts. Else one with none.
    Updates(Updates),
}

/// The value of a field.
#[derive(Debug)]
pub enum FieldValue {
    Text(String),
    OptionalText(Option<String>),
    OptionalInteger(Option<i64>),
    Integer(i64),
    Flag(bool),
    Integers(Vec<i64>),
    Updates(Vec<Option<String>>),
}

/// What a `FieldValue` stands for.
pub enum ValueView {
    Text(Seq<char>),
    OptionalText(Option<Seq<char>>),
    OptionalInteger(Option<i64>),
    Integer(i64),
    Flag(bool),
    Integers(Seq<i64>),
    Updates(Seq<Option<Seq<char>>>),
}

impl DeepView for FieldValue {
    type V = ValueView;

    open spec fn deep_view(&self) -> ValueView {
        match self {
            FieldValue::Text(s) => ValueView::Text(s@),
            FieldValue::OptionalText(t) => ValueView::OptionalText(t.deep_view()),
            FieldValue::OptionalInteger(n) => ValueView::OptionalInteger(*n),
            FieldValue::Integer(n) => ValueView::Integer(*n),
            FieldValue::Flag(b) => ValueView::Flag(*b),
            FieldValue::Integers(ns) => ValueView::Integers(ns@),
            FieldValue::Updates(ts) => ValueView::Updates(ts.deep_view()),
        }
    }
}

/// The parameters of each tool that takes any.
#[derive(Debug, Clone, Copy)]
pub enum Shape {
    SearchContacts,
    CompanyNetwork,
    UpdateContactField,
    MergeCompanyAlias,
    EnqueueEnrichment,
    UpdateCompanyFields,
    ListCompaniesNeedingEnrichment,
    UpdateContactFields,
    ListContactsNeedingEnrichment,
    BackupVault,
}

/// The fields of a record of updates.
pub open spec fn updates_schema(updates: Updates) -> SchemaView {
    match updates {
        Updates::Company => SchemaView {
            title: "CompanyFieldUpdates"@,
            denies_unknown: false,
            names: seq![
                "url"@,
                "industry"@,
                "category"@,
                "size_range"@,
                "description"@,
                "hq_location"@,
                "stock_symbol"@,
                "main_phone"@,
            ],
        },
        Updates::Contact => SchemaView {
            title: "ContactFieldUpdates"@,
            denies_unknown: true,
            names: seq![
                "schools_attended"@,
                "previous_companies"@,
                "previous_positions"@,
                "geographic_location"@,
                "ai_research_summary"@,
                "mobile_phone"@,
                "home_phone"@,
                "business_phone"@,
                "home_address"@,
                "websites"@,
                "instant_message"@,
                "birthday"@,
                "secondary_email"@,
            ],
        },
    }
}

/// A record of updates in which no field is given.
pub open spec fn no_updates(updates: Updates) -> Seq<Option<Seq<char>>> {
    Seq::new(updates_schema(updates).names.len(), |j: int| None)
}

/// The values that the fields of a record of updates have where nothing is given.
pub open spec fn updates_defaults(updates: Updates) -> Seq<Option<Option<Seq<char>>>> {
    no_updates(updates).map_values(|t: Option<Seq<char>>| Some(t))
}

/// How each field of a record of updates reads a JSON value.
pub open spec fn updates_reads() -> spec_fn(int, JsonView) -> Result<Option<Seq<char>>, Seq<char>> {
    |j: int, v: JsonView| optional_text_value(v)
}

/// The texts that a JSON value gives a record of updates, in the order of its fields.
pub open spec fn updates_value(updates: Updates, v: JsonView) -> Result<
    Seq<Option<Seq<char>>>,
    Seq<char>,
> {
    record_of(updates_schema(updates), updates_defaults(updates), updates_reads(), v)
}

/// A record of updates as a JSON object: a member for each field, `null` where it has no text.
pub open spec fn updates_json(updates: Updates, texts: Seq<Option<Seq<char>>>) -> JsonView {
    let names = updates_schema(updates).names;
    JsonView::Object(
        Seq::new(
            names.len(),
            |j: int|
                (
                    names[j],
                    match texts[j] {
                        Some(t) => JsonView::Text(t),
                        None => JsonView::Null,
                    },
                ),
        ),
    )
}

/// The value that a JSON value gives a field.
pub open spec fn field_value(kind: FieldKind, v: JsonView) -> Result<ValueView, Seq<char>> {
    match kind {
        FieldKind::Text => match text_value(v) {
            Ok(s) => Ok(ValueView::Text(s)),
            Err(e) => Err(e),
        },
        FieldKind::OptionalText => match optional_text_value(v) {
            Ok(t) => Ok(ValueView::OptionalText(t)),
            Err(e) => Err(e),
        },
        FieldKind::FlexibleInteger => match flexible_i64(v) {
            Ok(n) => Ok(ValueView::OptionalInteger(n)),
            Err(e) => Err(e),
        },
        FieldKind::Integer => match integer_value(v) {
            Ok(n) => Ok(ValueView::Integer(n)),
            Err(e) => Err(e),
        },
        FieldKind::Flag => match flag_value(v) {
            Ok(b) => Ok(ValueView::Flag(b)),
            Err(e) => Err(e),
        },
        FieldKind::IntegerList => match integers_value(v) {
            Ok(ns) => Ok(ValueView::Integers(ns)),
            Err(e) => Err(e),
        },
        FieldKind::Updates(updates) => match updates_value(updates, v) {
            Ok(ts) => Ok(ValueView::Updates(ts)),
            Err(e) => Err(e),
        },
    }
}

/// The value of a field for which nothing is given, where it has one.
pub open spec fn field_default(kind: FieldKind) -> Option<ValueView> {
    match kind {
        FieldKind::Text => None,
        FieldKind::OptionalText => Some(ValueView::OptionalText(None)),
        FieldKind::FlexibleInteger => Some(ValueView::OptionalInteger(None)),
        FieldKind::Integer => None,
        FieldKind::Flag => Some(ValueView::Flag(false)),
        FieldKind::IntegerList => None,
        FieldKind::Updates(updates) => Some(ValueView::Updates(no_updates(updates))),
    }
}

/// The fields of a tool's parameters.
pub open spec fn shape_schema(shape: Shape) -> SchemaView {
    match shape {
        Shape::SearchContacts => SchemaView {
            title: "SearchContactsParams"@,
            denies_unknown: false,
            names: seq!["query"@, "status"@, "limit"@, "offset"@],
        },
        Shape::CompanyNetwork => SchemaView {
            title: "CompanyNetworkParams"@,
            denies_unknown: false,
            names: seq!["name"@],
        },
        Shape::UpdateContactField => SchemaView {
            title: "UpdateContactFieldParams"@,
            denies_unknown: false,
            names: seq!["contact_id"@, "field"@, "value"@],
        },
        Shape::MergeCompanyAlias => SchemaView {
            title: "MergeCompanyAliasParams"@,
            denies_unknown: false,
            names: seq!["company_id"@, "new_name"@],
        },
        Shape::EnqueueEnrichment => SchemaView {
            title: "EnqueueEnrichmentParams"@,
            denies_unknown: false,
            names: seq!["contact_ids"@],
        },
        Shape::UpdateCompanyFields => SchemaView {
            title: "UpdateCompanyFieldsParams"@,
            denies_unknown: false,
            names: seq!["company_id"@, "fields"@, "overwrite"@],
        },
        Shape::ListCompaniesNeedingEnrichment => SchemaView {
            title: "ListCompaniesNeedingEnrichmentParams"@,
            denies_unknown: false,
            names: seq!["limit"@],
        },
        Shape::UpdateContactFields => SchemaView {
            title: "UpdateContactFieldsParams"@,
            denies_unknown: true,
            names: seq!["contact_id"@, "fields"@, "write_mode"@],
        },
        Shape::ListContactsNeedingEnrichment => SchemaView {
            title: "ListContactsNeedingEnrichmentParams"@,
            denies_unknown: false,
            names: seq!["limit"@],
        },
        Shape::BackupVault => SchemaView {
            title: "BackupVaultParams"@,
            denies_unknown: false,
            names: seq!["path"@],
        },
    }
}

/// What each field of a tool's parameters takes.
pub open spec fn shape_kinds(shape: Shape) -> Seq<FieldKind> {
    match shape {
        Shape::SearchContacts => seq![
            FieldKind::Text,
            FieldKind::OptionalText,
            FieldKind::FlexibleInteger,
            FieldKind::FlexibleInteger,
        ],
        Shape::CompanyNetwork => seq![FieldKind::Text],
        Shape::UpdateContactField => seq![FieldKind::Integer, FieldKind::Text, FieldKind::Text],
        Shape::MergeCompanyAlias => seq![FieldKind::Integer, FieldKind::Text],
        Shape::EnqueueEnrichment => seq![FieldKind::IntegerList],
        Shape::UpdateCompanyFields => seq![
            FieldKind::Integer,
            FieldKind::Updates(Updates::Company),
            FieldKind::Flag,
        ],
        Shape::ListCompaniesNeedingEnrichment => seq![FieldKind::FlexibleInteger],
        Shape::UpdateContactFields => seq![
            FieldKind::Integer,
            FieldKind::Updates(Updates::Contact),
            FieldKind::OptionalText,
        ],
        Shape::ListContactsNeedingEnrichment => seq![FieldKind::FlexibleInteger],
        Shape::BackupVault => seq![FieldKind::Text],
    }
}

/// The values that the fields of a tool's parameters have where nothing is given.
pub open spec fn shape_defaults(shape: Shape) -> Seq<Option<ValueView>> {
    shape_kinds(shape).map_values(|k: FieldKind| field_default(k))
}

/// How each field of a tool's parameters reads a JSON value.
pub open spec fn shape_reads(shape: Shape) -> spec_fn(int, JsonView) -> Result<
    ValueView,
    Seq<char>,
> {
    |j: int, v: JsonView| field_value(shape_kinds(shape)[j], v)
}

/// The values of a tool's parameters, in the order of their fields, that a JSON value gives.
pub open spec fn record(shape: Shape, v: JsonView) -> Result<Seq<ValueView>, Seq<char>> {
    record_of(shape_schema(shape), shape_defaults(shape), shape_reads(shape), v)
}

/// Whether a value is of the kind that a field takes.
pub open spec fn has_kind(kind: FieldKind, v: ValueView) -> bool {
    match kind {
        FieldKind::Text => v is Text,
        FieldKind::OptionalText => v is OptionalText,
        FieldKind::FlexibleInteger => v is OptionalInteger,
        FieldKind::Integer => v is Integer,
        FieldKind::Flag => v is Flag,
        FieldKind::IntegerList => v is Integers,
        FieldKind::Updates(updates) => v matches ValueView::Updates(ts) && ts.len()
            == updates_schema(updates).names.len(),
    }
}

/// A value that a member gives a field is the value that some member, under the field's name,
/// reads as.
pub proof fn lemma_entry_value_is_read<V>(
    schema: SchemaView,
    read: spec_fn(int, JsonView) -> Result<V, Seq<char>>,
    members: Seq<(Seq<char>, JsonView)>,
    j: int,
) -> (i: int)
    requires
        entry_value(entries_of(schema, read, members), j) is Some,
    ensures
        0 <= i < members.len(),
        schema.position(members[i].0) == Some(j),
        read(j, members[i].1) == Ok::<V, Seq<char>>(
            entry_value(entries_of(schema, read, members), j)->Some_0,
        ),
    decreases members.len(),
{
    let entries = entries_of(schema, read, members);
    let last = entries.last();
    if last matches EntryView::Known(k, Ok(_)) && k == j {
        members.len() - 1
    } else {
        assert(entries.drop_last() == entries_of(schema, read, members.drop_last()));
        lemma_entry_value_is_read(schema, read, members.drop_last(), j)
    }
}

/// The values of a tool's parameters are as many as its fields, each of its field's kind.
pub proof fn lemma_record_kinds(shape: Shape, v: JsonView)
    ensures
        record(shape, v) matches Ok(vs) ==> {
            &&& vs.len() == shape_kinds(shape).len()
            &&& forall|j: int|
                0 <= j < vs.len() ==> has_kind(shape_kinds(shape)[j], #[trigger] vs[j])
        },
{
    if let Ok(vs) = record(shape, v) {
        let schema = shape_schema(shape);
        let kinds = shape_kinds(shape);
        let defaults = shape_defaults(shape);
        match v {
            JsonView::Object(members) => {
                let entries = entries_of(schema, shape_reads(shape), members);
                schema.lemma_none_missing(defaults, entries, 0);
                assert forall|j: int| 0 <= j < vs.len() implies has_kind(
                    kinds[j],
                    #[trigger] vs[j],
                ) by {
                    assert(filled(defaults, entries, j) == Some(vs[j]));
                    if entry_value(entries, j) is Some {
                        let i = lemma_entry_value_is_read(schema, shape_reads(shape), members, j);
                        assert(field_value(kinds[j], members[i].1) == Ok::<ValueView, Seq<char>>(
                            vs[j],
                        ));
                    }
                }
            },
            JsonView::Array(items) => {
                let given = items_of(schema, shape_reads(shape), items);
                schema.lemma_no_item_fault(defaults, given, 0);
                assert forall|j: int| 0 <= j < vs.len() implies has_kind(
                    kinds[j],
                    #[trigger] vs[j],
                ) by {
                    assert(schema.item_value(defaults, given, j) == Ok::<ValueView, Seq<char>>(
                        vs[j],
                    ));
                }
            },
            _ => {},
        }
    }
}

/// The texts that a JSON value gives a record of updates are as many as its fields.
pub proof fn lemma_updates_len(updates: Updates, v: JsonView)
    ensures
        updates_value(updates, v) matches Ok(ts) ==> ts.len() == updates_schema(updates).names.len(),
{
}

/// The fields of a record of updates.
fn schema_of_updates(updates: Updates) -> (r: Schema)
    ensures
        r@ == updates_schema(updates),
{
    let schema = match updates {
        Updates::Company => Schema {
            title: "CompanyFieldUpdates",
            denies_unknown: false,
            names: vec![
                "url",
                "industry",
                "category",
                "size_range",
                "description",
                "hq_location",
                "stock_symbol",
                "main_phone",
            ],
        },
        Updates::Contact => Schema {
            title: "ContactFieldUpdates",
            denies_unknown: true,
            names: vec![
                "schools_attended",
                "previous_companies",
                "previous_positions",
                "geographic_location",
                "ai_research_summary",
                "mobile_phone",
                "home_phone",
                "business_phone",
                "home_address",
                "websites",
                "instant_message",
                "birthday",
                "secondary_email",
            ],
        },
    };
    assert(schema@.names == updates_schema(updates).names);
    schema
}

/// The fields of a tool's parameters.
fn schema_of_shape(shape: Shape) -> (r: Schema)
    ensures
        r@ == shape_schema(shape),
{
    let schema = match shape {
        Shape::SearchContacts => Schema {
            title: "SearchContactsParams",
            denies_unknown: false,
            names: vec!["query", "status", "limit", "offset"],
        },
        Shape::CompanyNetwork => Schema {
            title: "CompanyNetworkParams",
            denies_unknown: false,
            names: vec!["name"],
        },
        Shape::UpdateContactField => Schema {
            title: "UpdateContactFieldParams",
            denies_unknown: false,
            names: vec!["contact_id", "field", "value"],
        },
        Shape::MergeCompanyAlias => Schema {
            title: "MergeCompanyAliasParams",
            denies_unknown: false,
            names: vec!["company_id", "new_name"],
        },
        Shape::EnqueueEnrichment => Schema {
            title: "EnqueueEnrichmentParams",
            denies_unknown: false,
            names: vec!["contact_ids"],
        },
        Shape::UpdateCompanyFields => Schema {
            title: "UpdateCompanyFieldsParams",
            denies_unknown: false,
            names: vec!["company_id", "fields", "overwrite"],
        },
        Shape::ListCompaniesNeedingEnrichment => Schema {
            title: "ListCompaniesNeedingEnrichmentParams",
            denies_unknown: false,
            names: vec!["limit"],
        },
        Shape::UpdateContactFields => Schema {
            title: "UpdateContactFieldsParams",
            denies_unknown: true,
            names: vec!["contact_id", "fields", "write_mode"],
        },
        Shape::ListContactsNeedingEnrichment => Schema {
            title: "ListContactsNeedingEnrichmentParams",
            denies_unknown: false,
            names: vec!["limit"],
        },
        Shape::BackupVault => Schema {
            title: "BackupVaultParams",
            denies_unknown: false,
            names: vec!["path"],
        },
    };
    assert(schema@.names == shape_schema(shape).names);
    schema
}

/// What each field of a tool's parameters takes.
fn kinds_of_shape(shape: Shape) -> (r: Vec<FieldKind>)
    ensures
        r@ == shape_kinds(shape),
{
    match shape {
        Shape::SearchContacts => vec![
            FieldKind::Text,
            FieldKind::OptionalText,
            FieldKind::FlexibleInteger,
            FieldKind::FlexibleInteger,
        ],
        Shape::CompanyNetwork => vec![FieldKind::Text],
        Shape::UpdateContactField => vec![FieldKind::Integer, FieldKind::Text, FieldKind::Text],
        Shape::MergeCompanyAlias => vec![FieldKind::Integer, FieldKind::Text],
        Shape::EnqueueEnrichment => vec![FieldKind::IntegerList],
        Shape::UpdateCompanyFields => vec![
            FieldKind::Integer,
            FieldKind::Updates(Updates::Company),
            FieldKind::Flag,
        ],
        Shape::ListCompaniesNeedingEnrichment => vec![FieldKind::FlexibleInteger],
        Shape::UpdateContactFields => vec![
            FieldKind::Integer,
            FieldKind::Updates(Updates::Contact),
            FieldKind::OptionalText,
        ],
        Shape::ListContactsNeedingEnrichment => vec![FieldKind::FlexibleInteger],
        Shape::BackupVault => vec![FieldKind::Text],
    }
}

/// Reads a record of updates.
pub fn read_updates(updates: Updates, value: &JsonValue) -> (r: Result<
    Vec<Option<String>>,
    DecodeError,
>)
    ensures
        outcome(r) == updates_value(updates, value@),
{
    let schema = schema_of_updates(updates);
    let mut defaults: Vec<Option<Option<String>>> = Vec::new();
    for j in 0..schema.names.len()
        invariant
            defaults.len() == j,
            forall|k: int| 0 <= k < j ==> #[trigger] defaults@[k] == Some(None::<String>),
    {
        defaults.push(Some(None));
    }
    assert(defaults.deep_view() == updates_defaults(updates));
    let read = |j: usize, v: &JsonValue| -> (r: Result<Option<String>, DecodeError>)
        ensures
            outcome(r) == optional_text_value(v@),
    {
        read_optional_text(v)
    };
    read_record(&schema, defaults, value, read, Ghost(updates_reads()))
}

/// A record of updates in which no field is given.
pub fn empty_updates(updates: Updates) -> (r: Vec<Option<String>>)
    ensures
        r.deep_view() == no_updates(updates),
{
    let schema = schema_of_updates(updates);
    let mut texts: Vec<Option<String>> = Vec::new();
    for j in 0..schema.names.len()
        invariant
            texts.len() == j,
            forall|k: int| 0 <= k < j ==> #[trigger] texts@[k] is None,
    {
        texts.push(None);
    }
    assert(texts.deep_view() == no_updates(updates));
    texts
}

/// A record of updates, given by the texts of its fields, as a JSON object.
pub fn write_updates(updates: Updates, texts: Vec<Option<String>>) -> (r: JsonValue)
    requires
        texts.len() == updates_schema(updates).names.len(),
    ensures
        r@ == updates_json(updates, texts.deep_view()),
{
    let schema = schema_of_updates(updates);
    let ghost names = updates_schema(updates).names;
    let ghost views = updates_json(updates, texts.deep_view())->Object_0;
    let mut members: Vec<(String, JsonValue)> = Vec::new();
    let mut j: usize = 0;
    for text in it: texts
        invariant
            it.seq() == texts@,
            j == it.index(),
            names == schema.names.deep_view(),
            names.len() == texts.len(),
            names == updates_schema(updates).names,
            views == updates_json(updates, texts.deep_view())->Object_0,
            members.len() == j,
            forall|k: int|
                0 <= k < j ==> views[k] == ((#[trigger] members@[k]).0@, members@[k].1@),
    {
        assert(texts.deep_view()[j as int] == text.deep_view());
        let value = match text {
            Some(t) => JsonValue::Text(t),
            None => JsonValue::Null,
        };
        members.push((schema.names[j].to_string(), value));
        assert(names[j as int] == schema.names@[j as int]@);
        j += 1;
    }
    let value = JsonValue::Object(members);
    assert(value@->Object_0 == views);
    value
}

/// Reads the value of a field.
fn read_field(kind: FieldKind, value: &JsonValue) -> (r: Result<FieldValue, DecodeError>)
    ensures
        outcome(r) == field_value(kind, value@),
{
    match kind {
        FieldKind::Text => match read_text(value) {
            Ok(s) => Ok(FieldValue::Text(s)),
            Err(e) => Err(e),
        },
        FieldKind::OptionalText => match read_optional_text(value) {
            Ok(t) => Ok(FieldValue::OptionalText(t)),
            Err(e) => Err(e),
        },
        FieldKind::FlexibleInteger => match deserialize_flexible_i64(value) {
            Ok(n) => Ok(FieldValue::OptionalInteger(n)),
            Err(e) => Err(e),
        },
        FieldKind::Integer => match read_integer(value) {
            Ok(n) => Ok(FieldValue::Integer(n)),
            Err(e) => Err(e),
        },
        FieldKind::Flag => match read_flag(value) {
            Ok(b) => Ok(FieldValue::Flag(b)),
            Err(e) => Err(e),
        },
        FieldKind::IntegerList => match read_integers(value) {
            Ok(ns) => {
                assert(ns.deep_view() == ns@);
                Ok(FieldValue::Integers(ns))
            },
            Err(e) => Err(e),
        },
        FieldKind::Updates(updates) => match read_updates(updates, value) {
            Ok(ts) => Ok(FieldValue::Updates(ts)),
            Err(e) => Err(e),
        },
    }
}

/// The value of a field for which nothing is given, where it has one.
fn default_of_field(kind: FieldKind) -> (r: Option<FieldValue>)
    ensures
        r.deep_view() == field_default(kind),
{
    match kind {
        FieldKind::Text => None,
        FieldKind::OptionalText => Some(FieldValue::OptionalText(None)),
        FieldKind::FlexibleInteger => Some(FieldValue::OptionalInteger(None)),
        FieldKind::Integer => None,
        FieldKind::Flag => Some(FieldValue::Flag(false)),
        FieldKind::IntegerList => None,
        FieldKind::Updates(updates) => Some(FieldValue::Updates(empty_updates(updates))),
    }
}

/// Reads the values of a tool's parameters, in the order of their fields.
pub fn read_shape(shape: Shape, value: &JsonValue) -> (r: Result<Vec<FieldValue>, DecodeError>)
    ensures
        outcome(r) == record(shape, value@),
{
    let schema = schema_of_shape(shape);
    let kinds = kinds_of_shape(shape);
    let mut defaults: Vec<Option<FieldValue>> = Vec::new();
    for j in 0..kinds.len()
        invariant
            defaults.len() == j,
            forall|k: int|
                0 <= k < j ==> (#[trigger] defaults@[k]).deep_view() == field_default(kinds@[k]),
    {
        defaults.push(default_of_field(kinds[j]));
    }
    assert(defaults.deep_view() == shape_defaults(shape));
    let read = |j: usize, v: &JsonValue| -> (r: Result<FieldValue, DecodeError>)
        requires
            j < kinds@.len(),
        ensures
            outcome(r) == field_value(kinds@[j as int], v@),
    {
        read_field(kinds[j], v)
    };
    read_record(&schema, defaults, value, read, Ghost(shape_reads(shape)))
}

} // verus!
