//! What each tool takes, and what a backend reports of an update.
//!
//! Parameters are read from a JSON value, as a call's arguments are: `decode` takes what
//! `json::parse_json` reads.

use vstd::pervasive::unreached;
use vstd::prelude::*;

use crate::error::DecodeError;
use crate::json::JsonValue;
use crate::record::outcome;
use crate::shape::{
    has_kind, lemma_record_kinds, lemma_updates_len, no_updates, read_shape, read_updates, record,
    updates_json, updates_value, write_updates, FieldKind, FieldValue, Shape, Updates, ValueView,
};

verus! {

/// One entry per enrichment field of a company. All optional: supply only the ones you have a
/// value for.
#[derive(Debug)]
pub struct CompanyFieldUpdates {
    /// Official website, e.g. "https://www.acme.com".
    pub url: Option<String>,
    /// Free-text business sector, e.g. "Banking & Financial Services".
    pub industry: Option<String>,
    /// The kind of organisation. EXACTLY ONE of: "Public Company", "Private Company",
    /// "Academic Institution", "Non-Profit", "Government Entity", "Partnership", "Subsidiary".
    pub category: Option<String>,
    /// Employee count as a single number, e.g. "74000".
    pub size_range: Option<String>,
    pub description: Option<String>,
    pub hq_location: Option<String>,
    pub stock_symbol: Option<String>,
    pub main_phone: Option<String>,
}

/// One entry per enrichment field of a contact. All optional: supply only the ones you have a
/// value for.
#[derive(Debug)]
pub struct ContactFieldUpdates {
    /// Free text, as found (e.g. "Harvard University (MBA); UC Berkeley (BS)").
    pub schools_attended: Option<String>,
    /// Free-text list of past employers.
    pub previous_companies: Option<String>,
    /// Free-text list of past job titles, paired with `previous_companies`.
    pub previous_positions: Option<String>,
    /// City, state, country if available; else region/country; else country only.
    pub geographic_location: Option<String>,
    /// A fresh 2-4 sentence synthesis, rewritten each enrichment run.
    pub ai_research_summary: Option<String>,
    /// A phone number labelled "Mobile".
    pub mobile_phone: Option<String>,
    /// A phone number labelled "Home".
    pub home_phone: Option<String>,
    /// A phone number labelled "Work".
    pub business_phone: Option<String>,
    /// Street address, as found.
    pub home_address: Option<String>,
    /// Website(s), as "Type: url" per entry, joined with "; ".
    pub websites: Option<String>,
    /// Instant-messaging handle(s), as "Service: username" per entry, joined with "; ".
    pub instant_message: Option<String>,
    /// Birthday, as found (e.g. "November 22").
    pub birthday: Option<String>,
    /// A personal or secondary email, distinct from the contact's primary `email`.
    pub secondary_email: Option<String>,
}

/// What a backend reports of a company update: what actually changed, not just the resulting
/// record.
#[derive(Debug)]
pub struct CompanyFieldsWriteResult<Co> {
    pub company: Co,
    /// Field names actually written this call.
    pub fields_written: Vec<&'static str>,
    /// Field names supplied but skipped because they already had a value and `overwrite` was
    /// false.
    pub fields_skipped_already_set: Vec<&'static str>,
}

/// What a backend reports of a contact update: what actually changed, not just the resulting
/// record.
#[derive(Debug)]
pub struct ContactFieldsWriteResult<Ct> {
    pub contact: Ct,
    /// Field names actually written this call.
    pub fields_written: Vec<&'static str>,
    /// Field names supplied but skipped because they already had a value and `write_mode` was
    /// "skip" (or omitted).
    pub fields_skipped_already_set: Vec<&'static str>,
}

impl View for CompanyFieldUpdates {
    type V = Seq<Option<Seq<char>>>;

    /// The texts, in the order of the fields.
    open spec fn view(&self) -> Seq<Option<Seq<char>>> {
        seq![
            self.url.deep_view(),
            self.industry.deep_view(),
            self.category.deep_view(),
            self.size_range.deep_view(),
            self.description.deep_view(),
            self.hq_location.deep_view(),
            self.stock_symbol.deep_view(),
            self.main_phone.deep_view(),
        ]
    }
}

impl DeepView for CompanyFieldUpdates {
    type V = Seq<Option<Seq<char>>>;

    open spec fn deep_view(&self) -> Seq<Option<Seq<char>>> {
        self@
    }
}

impl Default for CompanyFieldUpdates {
    fn default() -> (r: Self)
        ensures
            r@ == no_updates(Updates::Company),
    {
        let updates = CompanyFieldUpdates {
            url: None,
            industry: None,
            category: None,
            size_range: None,
            description: None,
            hq_location: None,
            stock_symbol: None,
            main_phone: None,
        };
        assert(updates@ == no_updates(Updates::Company));
        updates
    }
}

impl CompanyFieldUpdates {
    /// The record with the given texts, in the order of its fields.
    fn from_texts(texts: Vec<Option<String>>) -> (r: Self)
        requires
            texts.len() == 8,
        ensures
            r@ == texts.deep_view(),
    {
        let mut left = texts;
        let main_phone = pop_optional(&mut left);
        let stock_symbol = pop_optional(&mut left);
        let hq_location = pop_optional(&mut left);
        let description = pop_optional(&mut left);
        let size_range = pop_optional(&mut left);
        let category = pop_optional(&mut left);
        let industry = pop_optional(&mut left);
        let url = pop_optional(&mut left);
        let updates = CompanyFieldUpdates {
            url,
            industry,
            category,
            size_range,
            description,
            hq_location,
            stock_symbol,
            main_phone,
        };
        assert(updates@ == texts.deep_view());
        updates
    }

    /// The updates that a JSON value gives.
    pub fn decode(value: &JsonValue) -> (r: Result<Self, DecodeError>)
        ensures
            outcome(r) == updates_value(Updates::Company, value@),
    {
        match read_updates(Updates::Company, value) {
            Err(e) => Err(e),
            Ok(texts) => {
                proof {
                    lemma_updates_len(Updates::Company, value@);
                }
                Ok(Self::from_texts(texts))
            },
        }
    }

    /// The updates as a JSON object.
    pub fn encode(&self) -> (r: JsonValue)
        ensures
            r@ == updates_json(Updates::Company, self@),
    {
        let texts = vec![
            copy_text(&self.url),
            copy_text(&self.industry),
            copy_text(&self.category),
            copy_text(&self.size_range),
            copy_text(&self.description),
            copy_text(&self.hq_location),
            copy_text(&self.stock_symbol),
            copy_text(&self.main_phone),
        ];
        assert(texts.deep_view() == self@);
        write_updates(Updates::Company, texts)
    }
}

impl View for ContactFieldUpdates {
    type V = Seq<Option<Seq<char>>>;

    /// The texts, in the order of the fields.
    open spec fn view(&self) -> Seq<Option<Seq<char>>> {
        seq![
            self.schools_attended.deep_view(),
            self.previous_companies.deep_view(),
            self.previous_positions.deep_view(),
            self.geographic_location.deep_view(),
            self.ai_research_summary.deep_view(),
            self.mobile_phone.deep_view(),
            self.home_phone.deep_view(),
            self.business_phone.deep_view(),
            self.home_address.deep_view(),
            self.websites.deep_view(),
            self.instant_message.deep_view(),
            self.birthday.deep_view(),
            self.secondary_email.deep_view(),
        ]
    }
}

impl DeepView for ContactFieldUpdates {
    type V = Seq<Option<Seq<char>>>;

    open spec fn deep_view(&self) -> Seq<Option<Seq<char>>> {
        self@
    }
}

impl Default for ContactFieldUpdates {
    fn default() -> (r: Self)
        ensures
            r@ == no_updates(Updates::Contact),
    {
        let updates = ContactFieldUpdates {
            schools_attended: None,
            previous_companies: None,
            previous_positions: None,
            geographic_location: None,
            ai_research_summary: None,
            mobile_phone: None,
            home_phone: None,
            business_phone: None,
            home_address: None,
            websites: None,
            instant_message: None,
            birthday: None,
            secondary_email: None,
        };
        assert(updates@ == no_updates(Updates::Contact));
        updates
    }
}

impl ContactFieldUpdates {
    /// The record with the given texts, in the order of its fields.
    fn from_texts(texts: Vec<Option<String>>) -> (r: Self)
        requires
            texts.len() == 13,
        ensures
            r@ == texts.deep_view(),
    {
        let mut left = texts;
        let secondary_email = pop_optional(&mut left);
        let birthday = pop_optional(&mut left);
        let instant_message = pop_optional(&mut left);
        let websites = pop_optional(&mut left);
        let home_address = pop_optional(&mut left);
        let business_phone = pop_optional(&mut left);
        let home_phone = pop_optional(&mut left);
        let mobile_phone = pop_optional(&mut left);
        let ai_research_summary = pop_optional(&mut left);
        let geographic_location = pop_optional(&mut left);
        let previous_positions = pop_optional(&mut left);
        let previous_companies = pop_optional(&mut left);
        let schools_attended = pop_optional(&mut left);
        let updates = ContactFieldUpdates {
            schools_attended,
            previous_companies,
            previous_positions,
            geographic_location,
            ai_research_summary,
            mobile_phone,
            home_phone,
            business_phone,
            home_address,
            websites,
            instant_message,
            birthday,
            secondary_email,
        };
        assert(updates@ == texts.deep_view());
        updates
    }

    /// The updates that a JSON value gives.
    pub fn decode(value: &JsonValue) -> (r: Result<Self, DecodeError>)
        ensures
            outcome(r) == updates_value(Updates::Contact, value@),
    {
        match read_updates(Updates::Contact, value) {
            Err(e) => Err(e),
            Ok(texts) => {
                proof {
                    lemma_updates_len(Updates::Contact, value@);
                }
                Ok(Self::from_texts(texts))
            },
        }
    }

    /// The updates as a JSON object.
    pub fn encode(&self) -> (r: JsonValue)
        ensures
            r@ == updates_json(Updates::Contact, self@),
    {
        let texts = vec![
            copy_text(&self.schools_attended),
            copy_text(&self.previous_companies),
            copy_text(&self.previous_positions),
            copy_text(&self.geographic_location),
            copy_text(&self.ai_research_summary),
            copy_text(&self.mobile_phone),
            copy_text(&self.home_phone),
            copy_text(&self.business_phone),
            copy_text(&self.home_address),
            copy_text(&self.websites),
            copy_text(&self.instant_message),
            copy_text(&self.birthday),
            copy_text(&self.secondary_email),
        ];
        assert(texts.deep_view() == self@);
        write_updates(Updates::Contact, texts)
    }
}

/// A copy of an optional text.
fn copy_text(text: &Option<String>) -> (r: Option<String>)
    ensures
        r.deep_view() == text.deep_view(),
{
    match text {
        Some(t) => Some(t.clone()),
        None => None,
    }
}

/// Takes the last of a list of optional texts.
fn pop_optional(texts: &mut Vec<Option<String>>) -> (r: Option<String>)
    requires
        old(texts).len() > 0,
    ensures
        r == old(texts)@.last(),
        final(texts)@ == old(texts)@.drop_last(),
{
    match texts.pop() {
        Some(text) => text,
        None => unreached(),
    }
}

/// What `search_contacts` takes.
#[derive(Debug)]
pub struct SearchContactsParams {
    /// Free-text query; what it matches is for the backend to say.
    pub query: String,
    /// Status filter, defined by the backend (e.g. "active" | "archived" | "all").
    /// Omit for the backend's own default.
    pub status: Option<String>,
    /// Max rows to return. Default 25, capped at 200.
    pub limit: Option<i64>,
    /// Rows to skip before collecting `limit` results. Default 0.
    pub offset: Option<i64>,
}

/// What `get_company_network` takes.
#[derive(Debug)]
pub struct CompanyNetworkParams {
    /// Company name to look up.
    pub name: String,
}

/// What `update_contact_field` takes.
#[derive(Debug)]
pub struct UpdateContactFieldParams {
    pub contact_id: i64,
    /// Field name, defined by the backend (e.g. "email", "position").
    pub field: String,
    pub value: String,
}

/// What `merge_company_alias` takes.
#[derive(Debug)]
pub struct MergeCompanyAliasParams {
    pub company_id: i64,
    pub new_name: String,
}

/// What `enqueue_enrichment` takes.
#[derive(Debug)]
pub struct EnqueueEnrichmentParams {
    pub contact_ids: Vec<i64>,
}

/// What `update_company_fields` takes.
#[derive(Debug)]
pub struct UpdateCompanyFieldsParams {
    pub company_id: i64,
    pub fields: CompanyFieldUpdates,
    /// Whether fields that already have a value are overwritten. Default false.
    pub overwrite: bool,
}

/// What `list_companies_needing_enrichment` takes.
#[derive(Debug)]
pub struct ListCompaniesNeedingEnrichmentParams {
    /// Max companies to return. Default 50, capped at 500.
    pub limit: Option<i64>,
}

/// What `update_contact_fields` takes.
#[derive(Debug)]
pub struct UpdateContactFieldsParams {
    pub contact_id: i64,
    pub fields: ContactFieldUpdates,
    /// How to handle a field that already has a value: "overwrite", "skip" (the default) or
    /// "append".
    pub write_mode: Option<String>,
}

/// What `list_contacts_needing_enrichment` takes.
#[derive(Debug)]
pub struct ListContactsNeedingEnrichmentParams {
    /// Max contacts to return. Default 50, capped at 200.
    pub limit: Option<i64>,
}

/// What `backup_vault` takes.
#[derive(Debug)]
pub struct BackupVaultParams {
    /// Absolute destination file path for the backup.
    pub path: String,
}

/// Takes the last of a list of values, the value of a text.
fn pop_text(values: &mut Vec<FieldValue>) -> (r: String)
    requires
        old(values).len() > 0,
        old(values)@.last().deep_view() is Text,
    ensures
        old(values)@.last().deep_view() == ValueView::Text(r@),
        final(values)@ == old(values)@.drop_last(),
{
    match values.pop() {
        Some(FieldValue::Text(v)) => v,
        _ => unreached(),
    }
}

/// Takes the last of a list of values, the value of an optional text.
fn pop_optional_text(values: &mut Vec<FieldValue>) -> (r: Option<String>)
    requires
        old(values).len() > 0,
        old(values)@.last().deep_view() is OptionalText,
    ensures
        old(values)@.last().deep_view() == ValueView::OptionalText(r.deep_view()),
        final(values)@ == old(values)@.drop_last(),
{
    match values.pop() {
        Some(FieldValue::OptionalText(v)) => v,
        _ => unreached(),
    }
}

/// Takes the last of a list of values, the value of an optional integer.
fn pop_optional_integer(values: &mut Vec<FieldValue>) -> (r: Option<i64>)
    requires
        old(values).len() > 0,
        old(values)@.last().deep_view() is OptionalInteger,
    ensures
        old(values)@.last().deep_view() == ValueView::OptionalInteger(r),
        final(values)@ == old(values)@.drop_last(),
{
    match values.pop() {
        Some(FieldValue::OptionalInteger(v)) => v,
        _ => unreached(),
    }
}

/// Takes the last of a list of values, the value of an integer.
fn pop_integer(values: &mut Vec<FieldValue>) -> (r: i64)
    requires
        old(values).len() > 0,
        old(values)@.last().deep_view() is Integer,
    ensures
        old(values)@.last().deep_view() == ValueView::Integer(r),
        final(values)@ == old(values)@.drop_last(),
{
    match values.pop() {
        Some(FieldValue::Integer(v)) => v,
        _ => unreached(),
    }
}

/// Takes the last of a list of values, the value of a flag.
fn pop_flag(values: &mut Vec<FieldValue>) -> (r: bool)
    requires
        old(values).len() > 0,
        old(values)@.last().deep_view() is Flag,
    ensures
        old(values)@.last().deep_view() == ValueView::Flag(r),
        final(values)@ == old(values)@.drop_last(),
{
    match values.pop() {
        Some(FieldValue::Flag(v)) => v,
        _ => unreached(),
    }
}

/// Takes the last of a list of values, the value of a list of integers.
fn pop_integers(values: &mut Vec<FieldValue>) -> (r: Vec<i64>)
    requires
        old(values).len() > 0,
        old(values)@.last().deep_view() is Integers,
    ensures
        old(values)@.last().deep_view() == ValueView::Integers(r@),
        final(values)@ == old(values)@.drop_last(),
{
    match values.pop() {
        Some(FieldValue::Integers(v)) => v,
        _ => unreached(),
    }
}

/// Takes the last of a list of values, the texts of a record of updates.
fn pop_updates(values: &mut Vec<FieldValue>) -> (r: Vec<Option<String>>)
    requires
        old(values).len() > 0,
        old(values)@.last().deep_view() is Updates,
    ensures
        old(values)@.last().deep_view() == ValueView::Updates(r.deep_view()),
        final(values)@ == old(values)@.drop_last(),
{
    match values.pop() {
        Some(FieldValue::Updates(v)) => v,
        _ => unreached(),
    }
}

impl DeepView for SearchContactsParams {
    type V = Seq<ValueView>;

    /// The values, in the order of the fields.
    open spec fn deep_view(&self) -> Seq<ValueView> {
        seq![
            ValueView::Text(self.query@),
            ValueView::OptionalText(self.status.deep_view()),
            ValueView::OptionalInteger(self.limit),
            ValueView::OptionalInteger(self.offset),
        ]
    }
}

impl SearchContactsParams {
    /// The parameters that a JSON value gives.
    pub fn decode(value: &JsonValue) -> (r: Result<Self, DecodeError>)
        ensures
            outcome(r) == record(Shape::SearchContacts, value@),
    {
        match read_shape(Shape::SearchContacts, value) {
            Err(e) => Err(e),
            Ok(read) => {
                proof {
                    lemma_record_kinds(Shape::SearchContacts, value@);
                }
                let mut values = read;
                let ghost vs = values.deep_view();
                assert(values@.len() == 4);
                assert(has_kind(FieldKind::Text, vs[0]));
                assert(has_kind(FieldKind::OptionalText, vs[1]));
                assert(has_kind(FieldKind::FlexibleInteger, vs[2]));
                assert(has_kind(FieldKind::FlexibleInteger, vs[3]));
                let offset = pop_optional_integer(&mut values);
                let limit = pop_optional_integer(&mut values);
                let status = pop_optional_text(&mut values);
                let query = pop_text(&mut values);
                let params = SearchContactsParams { query, status, limit, offset };
                assert(params.deep_view() == vs);
                Ok(params)
            },
        }
    }
}

impl DeepView for CompanyNetworkParams {
    type V = Seq<ValueView>;

    /// The values, in the order of the fields.
    open spec fn deep_view(&self) -> Seq<ValueView> {
        seq![ValueView::Text(self.name@)]
    }
}

impl CompanyNetworkParams {
    /// The parameters that a JSON value gives.
    pub fn decode(value: &JsonValue) -> (r: Result<Self, DecodeError>)
        ensures
            outcome(r) == record(Shape::CompanyNetwork, value@),
    {
        match read_shape(Shape::CompanyNetwork, value) {
            Err(e) => Err(e),
            Ok(read) => {
                proof {
                    lemma_record_kinds(Shape::CompanyNetwork, value@);
                }
                let mut values = read;
                let ghost vs = values.deep_view();
                assert(values@.len() == 1);
                assert(has_kind(FieldKind::Text, vs[0]));
                let name = pop_text(&mut values);
                let params = CompanyNetworkParams { name };
                assert(params.deep_view() == vs);
                Ok(params)
            },
        }
    }
}

impl DeepView for UpdateContactFieldParams {
    type V = Seq<ValueView>;

    /// The values, in the order of the fields.
    open spec fn deep_view(&self) -> Seq<ValueView> {
        seq![
            ValueView::Integer(self.contact_id),
            ValueView::Text(self.field@),
            ValueView::Text(self.value@),
        ]
    }
}

impl UpdateContactFieldParams {
    /// The parameters that a JSON value gives.
    pub fn decode(value: &JsonValue) -> (r: Result<Self, DecodeError>)
        ensures
            outcome(r) == record(Shape::UpdateContactField, value@),
    {
        match read_shape(Shape::UpdateContactField, value) {
            Err(e) => Err(e),
            Ok(read) => {
                proof {
                    lemma_record_kinds(Shape::UpdateContactField, value@);
                }
                let mut values = read;
                let ghost vs = values.deep_view();
                assert(values@.len() == 3);
                assert(has_kind(FieldKind::Integer, vs[0]));
                assert(has_kind(FieldKind::Text, vs[1]));
                assert(has_kind(FieldKind::Text, vs[2]));
                let value = pop_text(&mut values);
                let field = pop_text(&mut values);
                let contact_id = pop_integer(&mut values);
                let params = UpdateContactFieldParams { contact_id, field, value };
                assert(params.deep_view() == vs);
                Ok(params)
            },
        }
    }
}

impl DeepView for MergeCompanyAliasParams {
    type V = Seq<ValueView>;

    /// The values, in the order of the fields.
    open spec fn deep_view(&self) -> Seq<ValueView> {
        seq![ValueView::Integer(self.company_id), ValueView::Text(self.new_name@)]
    }
}

impl MergeCompanyAliasParams {
    /// The parameters that a JSON value gives.
    pub fn decode(value: &JsonValue) -> (r: Result<Self, DecodeError>)
        ensures
            outcome(r) == record(Shape::MergeCompanyAlias, value@),
    {
        match read_shape(Shape::MergeCompanyAlias, value) {
            Err(e) => Err(e),
            Ok(read) => {
                proof {
                    lemma_record_kinds(Shape::MergeCompanyAlias, value@);
                }
                let mut values = read;
                let ghost vs = values.deep_view();
                assert(values@.len() == 2);
                assert(has_kind(FieldKind::Integer, vs[0]));
                assert(has_kind(FieldKind::Text, vs[1]));
                let new_name = pop_text(&mut values);
                let company_id = pop_integer(&mut values);
                let params = MergeCompanyAliasParams { company_id, new_name };
                assert(params.deep_view() == vs);
                Ok(params)
            },
        }
    }
}

impl DeepView for EnqueueEnrichmentParams {
    type V = Seq<ValueView>;

    /// The values, in the order of the fields.
    open spec fn deep_view(&self) -> Seq<ValueView> {
        seq![ValueView::Integers(self.contact_ids@)]
    }
}

impl EnqueueEnrichmentParams {
    /// The parameters that a JSON value gives.
    pub fn decode(value: &JsonValue) -> (r: Result<Self, DecodeError>)
        ensures
            outcome(r) == record(Shape::EnqueueEnrichment, value@),
    {
        match read_shape(Shape::EnqueueEnrichment, value) {
            Err(e) => Err(e),
            Ok(read) => {
                proof {
                    lemma_record_kinds(Shape::EnqueueEnrichment, value@);
                }
                let mut values = read;
                let ghost vs = values.deep_view();
                assert(values@.len() == 1);
                assert(has_kind(FieldKind::IntegerList, vs[0]));
                let contact_ids = pop_integers(&mut values);
                let params = EnqueueEnrichmentParams { contact_ids };
                assert(params.deep_view() == vs);
                Ok(params)
            },
        }
    }
}

impl DeepView for UpdateCompanyFieldsParams {
    type V = Seq<ValueView>;

    /// The values, in the order of the fields.
    open spec fn deep_view(&self) -> Seq<ValueView> {
        seq![
            ValueView::Integer(self.company_id),
            ValueView::Updates(self.fields@),
            ValueView::Flag(self.overwrite),
        ]
    }
}

impl UpdateCompanyFieldsParams {
    /// The parameters that a JSON value gives.
    pub fn decode(value: &JsonValue) -> (r: Result<Self, DecodeError>)
        ensures
            outcome(r) == record(Shape::UpdateCompanyFields, value@),
    {
        match read_shape(Shape::UpdateCompanyFields, value) {
            Err(e) => Err(e),
            Ok(read) => {
                proof {
                    lemma_record_kinds(Shape::UpdateCompanyFields, value@);
                }
                let mut values = read;
                let ghost vs = values.deep_view();
                assert(values@.len() == 3);
                assert(has_kind(FieldKind::Integer, vs[0]));
                assert(has_kind(FieldKind::Updates(Updates::Company), vs[1]));
                assert(has_kind(FieldKind::Flag, vs[2]));
                let overwrite = pop_flag(&mut values);
                let fields = CompanyFieldUpdates::from_texts(pop_updates(&mut values));
                let company_id = pop_integer(&mut values);
                let params = UpdateCompanyFieldsParams { company_id, fields, overwrite };
                assert(params.deep_view() == vs);
                Ok(params)
            },
        }
    }
}

impl DeepView for ListCompaniesNeedingEnrichmentParams {
    type V = Seq<ValueView>;

    /// The values, in the order of the fields.
    open spec fn deep_view(&self) -> Seq<ValueView> {
        seq![ValueView::OptionalInteger(self.limit)]
    }
}

impl ListCompaniesNeedingEnrichmentParams {
    /// The parameters that a JSON value gives.
    pub fn decode(value: &JsonValue) -> (r: Result<Self, DecodeError>)
        ensures
            outcome(r) == record(Shape::ListCompaniesNeedingEnrichment, value@),
    {
        match read_shape(Shape::ListCompaniesNeedingEnrichment, value) {
            Err(e) => Err(e),
            Ok(read) => {
                proof {
                    lemma_record_kinds(Shape::ListCompaniesNeedingEnrichment, value@);
                }
                let mut values = read;
                let ghost vs = values.deep_view();
                assert(values@.len() == 1);
                assert(has_kind(FieldKind::FlexibleInteger, vs[0]));
                let limit = pop_optional_integer(&mut values);
                let params = ListCompaniesNeedingEnrichmentParams { limit };
                assert(params.deep_view() == vs);
                Ok(params)
            },
        }
    }
}

impl DeepView for UpdateContactFieldsParams {
    type V = Seq<ValueView>;

    /// The values, in the order of the fields.
    open spec fn deep_view(&self) -> Seq<ValueView> {
        seq![
            ValueView::Integer(self.contact_id),
            ValueView::Updates(self.fields@),
            ValueView::OptionalText(self.write_mode.deep_view()),
        ]
    }
}

impl UpdateContactFieldsParams {
    /// The parameters that a JSON value gives.
    pub fn decode(value: &JsonValue) -> (r: Result<Self, DecodeError>)
        ensures
            outcome(r) == record(Shape::UpdateContactFields, value@),
    {
        match read_shape(Shape::UpdateContactFields, value) {
            Err(e) => Err(e),
            Ok(read) => {
                proof {
                    lemma_record_kinds(Shape::UpdateContactFields, value@);
                }
                let mut values = read;
                let ghost vs = values.deep_view();
                assert(values@.len() == 3);
                assert(has_kind(FieldKind::Integer, vs[0]));
                assert(has_kind(FieldKind::Updates(Updates::Contact), vs[1]));
                assert(has_kind(FieldKind::OptionalText, vs[2]));
                let write_mode = pop_optional_text(&mut values);
                let fields = ContactFieldUpdates::from_texts(pop_updates(&mut values));
                let contact_id = pop_integer(&mut values);
                let params = UpdateContactFieldsParams { contact_id, fields, write_mode };
                assert(params.deep_view() == vs);
                Ok(params)
            },
        }
    }
}

impl DeepView for ListContactsNeedingEnrichmentParams {
    type V = Seq<ValueView>;

    /// The values, in the order of the fields.
    open spec fn deep_view(&self) -> Seq<ValueView> {
        seq![ValueView::OptionalInteger(self.limit)]
    }
}

impl ListContactsNeedingEnrichmentParams {
    /// The parameters that a JSON value gives.
    pub fn decode(value: &JsonValue) -> (r: Result<Self, DecodeError>)
        ensures
            outcome(r) == record(Shape::ListContactsNeedingEnrichment, value@),
    {
        match read_shape(Shape::ListContactsNeedingEnrichment, value) {
            Err(e) => Err(e),
            Ok(read) => {
                proof {
                    lemma_record_kinds(Shape::ListContactsNeedingEnrichment, value@);
                }
                let mut values = read;
                let ghost vs = values.deep_view();
                assert(values@.len() == 1);
                assert(has_kind(FieldKind::FlexibleInteger, vs[0]));
                let limit = pop_optional_integer(&mut values);
                let params = ListContactsNeedingEnrichmentParams { limit };
                assert(params.deep_view() == vs);
                Ok(params)
            },
        }
    }
}

impl DeepView for BackupVaultParams {
    type V = Seq<ValueView>;

    /// The values, in the order of the fields.
    open spec fn deep_view(&self) -> Seq<ValueView> {
        seq![ValueView::Text(self.path@)]
    }
}

impl BackupVaultParams {
    /// The parameters that a JSON value gives.
    pub fn decode(value: &JsonValue) -> (r: Result<Self, DecodeError>)
        ensures
            outcome(r) == record(Shape::BackupVault, value@),
    {
        match read_shape(Shape::BackupVault, value) {
            Err(e) => Err(e),
            Ok(read) => {
                proof {
                    lemma_record_kinds(Shape::BackupVault, value@);
                }
                let mut values = read;
                let ghost vs = values.deep_view();
                assert(values@.len() == 1);
                assert(has_kind(FieldKind::Text, vs[0]));
                let path = pop_text(&mut values);
                let params = BackupVaultParams { path };
                assert(params.deep_view() == vs);
                Ok(params)
            },
        }
    }
}

} // verus!
