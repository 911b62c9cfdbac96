//! Replies: what a backend answers, and what the caller of a tool gets for it.
//!
//! A record that a backend hands back is JSON text here, and is handed on as it is.

use rmcp::model::{CallToolResult, ContentBlock};
use std::fmt::Display;
use vstd::prelude::*;
use vstd::string::to_string_from_display_ensures;

use crate::backend::BackendCall;
use crate::params::{CompanyFieldsWriteResult, ContactFieldsWriteResult};
use crate::render::{
    array_text, array_to_text, bool_text, bool_to_text, quote_json, quoted, strings_to_text,
};
use crate::text::{decimal, i64_to_text};

verus! {

/// What the caller of a tool gets where the tool did its work.
#[derive(Debug)]
pub struct ToolResult {
    /// The text of each content block, where it has one.
    pub content: Vec<Option<String>>,
    /// Whether the tool reports an error of its own.
    pub is_error: Option<bool>,
}

/// What the caller of a tool gets where the tool failed.
#[derive(Debug)]
pub struct ToolError {
    /// The JSON-RPC error code.
    pub code: i32,
    pub message: String,
    /// Further JSON about the error.
    pub data: Option<String>,
}

/// The JSON-RPC code for an internal error.
pub const INTERNAL_ERROR: i32 = -32603;

/// A backend's reply to a call of one of its operations. The records in it are JSON texts.
#[derive(Debug)]
pub enum BackendReply<E> {
    /// The number of all matches, and this page of them.
    SearchContacts(Result<(i64, Vec<String>), E>),
    Stats(Result<String, E>),
    /// Whether a company was found, the company, and the contacts at it.
    CompanyNetwork(Result<(bool, Option<String>, Vec<String>), E>),
    UpdateContactField(Result<String, E>),
    MergeCompanyAlias(Result<String, E>),
    /// How many contacts were queued.
    EnqueueEnrichment(Result<i64, E>),
    UpdateCompanyFields(Result<CompanyFieldsWriteResult<String>, E>),
    ListCompaniesNeedingEnrichment(Result<Vec<String>, E>),
    UpdateContactFields(Result<ContactFieldsWriteResult<String>, E>),
    ListContactsNeedingEnrichment(Result<Vec<String>, E>),
    /// The path that the backup was to go to, and whether it did.
    BackupVault(String, Result<(), E>),
}

/// The error in a reply, where it is one.
pub open spec fn reply_error<E>(reply: BackendReply<E>) -> Option<E> {
    match reply {
        BackendReply::SearchContacts(Err(e)) => Some(e),
        BackendReply::Stats(Err(e)) => Some(e),
        BackendReply::CompanyNetwork(Err(e)) => Some(e),
        BackendReply::UpdateContactField(Err(e)) => Some(e),
        BackendReply::MergeCompanyAlias(Err(e)) => Some(e),
        BackendReply::EnqueueEnrichment(Err(e)) => Some(e),
        BackendReply::UpdateCompanyFields(Err(e)) => Some(e),
        BackendReply::ListCompaniesNeedingEnrichment(Err(e)) => Some(e),
        BackendReply::UpdateContactFields(Err(e)) => Some(e),
        BackendReply::ListContactsNeedingEnrichment(Err(e)) => Some(e),
        BackendReply::BackupVault(_, Err(e)) => Some(e),
        _ => None,
    }
}

/// Whether a reply is one to a call: it is of the call's operation, and where it tells of a backup,
/// the path is the call's.
pub open spec fn answers<E>(call: BackendCall, reply: BackendReply<E>) -> bool {
    match call {
        BackendCall::SearchContacts { .. } => reply is SearchContacts,
        BackendCall::Stats => reply is Stats,
        BackendCall::CompanyNetwork { .. } => reply is CompanyNetwork,
        BackendCall::UpdateContactField { .. } => reply is UpdateContactField,
        BackendCall::MergeCompanyAlias { .. } => reply is MergeCompanyAlias,
        BackendCall::EnqueueEnrichment { .. } => reply is EnqueueEnrichment,
        BackendCall::UpdateCompanyFields { .. } => reply is UpdateCompanyFields,
        BackendCall::ListCompaniesNeedingEnrichment { .. } => reply
            is ListCompaniesNeedingEnrichment,
        BackendCall::UpdateContactFields { .. } => reply is UpdateContactFields,
        BackendCall::ListContactsNeedingEnrichment { .. } => reply
            is ListContactsNeedingEnrichment,
        BackendCall::BackupVault { path } => reply matches BackendReply::BackupVault(p, _) && p@
            == path@,
    }
}

/// Whether a text has the form in which a call is answered: that of the call's tool, and for a
/// backup with the call's path. A single record stands as the backend wrote it.
pub open spec fn has_form_for(call: BackendCall, text: Seq<char>) -> bool {
    match call {
        BackendCall::SearchContacts { .. } => exists|total: i64, results: Seq<Seq<char>>|
            text == #[trigger] search_contacts_text(total, results),
        BackendCall::CompanyNetwork { .. } => exists|
            found: bool,
            company: Option<Seq<char>>,
            contacts: Seq<Seq<char>>,
        | text == #[trigger] company_network_text(found, company, contacts),
        BackendCall::EnqueueEnrichment { .. } => exists|queued: i64|
            text == "{\"queued\":"@ + #[trigger] decimal(queued as int) + "}"@,
        BackendCall::UpdateCompanyFields { .. } => exists|
            record: Seq<char>,
            written: Seq<Seq<char>>,
            skipped: Seq<Seq<char>>,
        | text == #[trigger] write_result_text("{\"company\":"@, record, written, skipped),
        BackendCall::ListCompaniesNeedingEnrichment { .. } => exists|items: Seq<Seq<char>>|
            text == "{\"companies\":"@ + #[trigger] array_text(items) + "}"@,
        BackendCall::UpdateContactFields { .. } => exists|
            record: Seq<char>,
            written: Seq<Seq<char>>,
            skipped: Seq<Seq<char>>,
        | text == #[trigger] write_result_text("{\"contact\":"@, record, written, skipped),
        BackendCall::ListContactsNeedingEnrichment { .. } => exists|items: Seq<Seq<char>>|
            text == "{\"contacts\":"@ + #[trigger] array_text(items) + "}"@,
        BackendCall::BackupVault { path } => text == "{\"backed_up_to\":"@ + quoted(path@) + "}"@,
        BackendCall::Stats => true,
        BackendCall::UpdateContactField { .. } => true,
        BackendCall::MergeCompanyAlias { .. } => true,
    }
}

/// A page of contacts as JSON.
pub open spec fn search_contacts_text(total: i64, results: Seq<Seq<char>>) -> Seq<char> {
    "{\"total_matches\":"@ + decimal(total as int) + ",\"results\":"@ + array_text(results) + "}"@
}

/// A company and its contacts as JSON.
pub open spec fn company_network_text(
    found: bool,
    company: Option<Seq<char>>,
    contacts: Seq<Seq<char>>,
) -> Seq<char> {
    "{\"found\":"@ + bool_text(found) + ",\"company\":"@ + (match company {
        Some(text) => text,
        None => "null"@,
    }) + ",\"contacts\":"@ + array_text(contacts) + "}"@
}

/// What was written and what was not, as JSON, the record after `start`, which opens the object
/// and names the record's key.
pub open spec fn write_result_text(
    start: Seq<char>,
    record: Seq<char>,
    written: Seq<Seq<char>>,
    skipped: Seq<Seq<char>>,
) -> Seq<char> {
    start + record + ",\"fields_written\":"@ + array_text(
        written.map_values(|s: Seq<char>| quoted(s)),
    ) + ",\"fields_skipped_already_set\":"@ + array_text(
        skipped.map_values(|s: Seq<char>| quoted(s)),
    ) + "}"@
}

/// The JSON text that the caller of a tool gets for a reply that is no error.
pub open spec fn reply_text<E>(reply: BackendReply<E>) -> Seq<char> {
    match reply {
        BackendReply::SearchContacts(Ok((total, results))) => search_contacts_text(
            total,
            results.deep_view(),
        ),
        BackendReply::Stats(Ok(stats)) => stats@,
        BackendReply::CompanyNetwork(Ok((found, company, contacts))) => company_network_text(
            found,
            company.deep_view(),
            contacts.deep_view(),
        ),
        BackendReply::UpdateContactField(Ok(contact)) => contact@,
        BackendReply::MergeCompanyAlias(Ok(company)) => company@,
        BackendReply::EnqueueEnrichment(Ok(queued)) => "{\"queued\":"@ + decimal(queued as int)
            + "}"@,
        BackendReply::UpdateCompanyFields(Ok(w)) => write_result_text(
            "{\"company\":"@,
            w.company@,
            w.fields_written.deep_view(),
            w.fields_skipped_already_set.deep_view(),
        ),
        BackendReply::ListCompaniesNeedingEnrichment(Ok(companies)) => "{\"companies\":"@
            + array_text(companies.deep_view()) + "}"@,
        BackendReply::UpdateContactFields(Ok(w)) => write_result_text(
            "{\"contact\":"@,
            w.contact@,
            w.fields_written.deep_view(),
            w.fields_skipped_already_set.deep_view(),
        ),
        BackendReply::ListContactsNeedingEnrichment(Ok(contacts)) => "{\"contacts\":"@ + array_text(
            contacts.deep_view(),
        ) + "}"@,
        BackendReply::BackupVault(path, Ok(_)) => "{\"backed_up_to\":"@ + quoted(path@) + "}"@,
        _ => Seq::empty(),
    }
}

/// Whether a tool error carries the text that a backend's error displays.
pub open spec fn surfaces<E: Display>(error: ToolError, e: E) -> bool {
    &&& error.code == INTERNAL_ERROR
    &&& error.data is None
    &&& exists|text: String|
        #[trigger] to_string_from_display_ensures::<E>(&e, text) && error.message@ == text@
}

/// Whether a tool result is a success with `text` as its one content block.
pub open spec fn succeeds_with(result: ToolResult, text: Seq<char>) -> bool {
    &&& result.content.deep_view() == seq![Some(text)]
    &&& result.is_error == Some(false)
}

/// Calls `rmcp::ErrorData::internal_error` without further data. Trusted: the error has the
/// JSON-RPC code for an internal error, the message that was given, and no data.
#[verifier::external_body]
fn internal_error(message: String) -> (r: ToolError)
    ensures
        r.code == INTERNAL_ERROR,
        r.message@ == message@,
        r.data is None,
{
    let error = rmcp::ErrorData::internal_error(message, None);
    ToolError {
        code: error.code.0,
        message: error.message.into_owned(),
        data: error.data.map(|data| data.to_string()),
    }
}

/// Calls `rmcp::model::CallToolResult::success` with one text block. Trusted: the result holds
/// that block and no other, and is marked as no error.
#[verifier::external_body]
fn success(text: String) -> (r: ToolResult)
    ensures
        succeeds_with(r, text@),
{
    let result = CallToolResult::success(vec![ContentBlock::text(text)]);
    ToolResult {
        content: result.content.iter().map(|b| b.as_text().map(|t| t.text.clone())).collect(),
        is_error: result.is_error,
    }
}

/// The tool error that surfaces a backend's error.
pub fn backend_err<E: Display>(e: E) -> (r: ToolError)
    ensures
        surfaces(r, e),
{
    let message = e.to_string();
    internal_error(message)
}

/// The tool result that carries a JSON text.
pub fn json_result(text: String) -> (r: ToolResult)
    ensures
        succeeds_with(r, text@),
{
    success(text)
}

/// What a backend answered, with its error as a tool error.
fn conclude<T, E: Display>(reply: Result<T, E>) -> (r: Result<T, ToolError>)
    ensures
        match reply {
            Ok(v) => r == Ok::<T, ToolError>(v),
            Err(e) => r matches Err(error) && surfaces(error, e),
        },
{
    match reply {
        Ok(v) => Ok(v),
        Err(e) => Err(backend_err(e)),
    }
}

/// What was written and what was not, as JSON text, the record after `start`.
fn write_result(
    start: &str,
    record: &String,
    written: &Vec<&'static str>,
    skipped: &Vec<&'static str>,
) -> (r: String)
    ensures
        r@ == write_result_text(start@, record@, written.deep_view(), skipped.deep_view()),
{
    start.to_string().concat(record.as_str()).concat(",\"fields_written\":").concat(
        strings_to_text(written).as_str(),
    ).concat(",\"fields_skipped_already_set\":").concat(strings_to_text(skipped).as_str()).concat(
        "}",
    )
}

/// What the caller of a tool gets for a backend's reply: the reply as JSON, or the backend's
/// error.
pub fn answer<E: Display>(reply: BackendReply<E>) -> (r: Result<ToolResult, ToolError>)
    ensures
        match reply_error(reply) {
            Some(e) => r matches Err(error) && surfaces(error, e),
            None => r matches Ok(result) && succeeds_with(result, reply_text(reply)),
        },
{
    let text = match reply {
        BackendReply::SearchContacts(result) => match conclude(result) {
            Ok((total, results)) => "{\"total_matches\":".to_string().concat(
                i64_to_text(total).as_str(),
            ).concat(",\"results\":").concat(array_to_text(&results).as_str()).concat("}"),
            Err(e) => return Err(e),
        },
        BackendReply::Stats(result) => match conclude(result) {
            Ok(stats) => stats,
            Err(e) => return Err(e),
        },
        BackendReply::CompanyNetwork(result) => match conclude(result) {
            Ok((found, company, contacts)) => {
                let company_text = match company {
                    Some(text) => text,
                    None => "null".to_string(),
                };
                "{\"found\":".to_string().concat(bool_to_text(found).as_str()).concat(
                    ",\"company\":",
                ).concat(company_text.as_str()).concat(",\"contacts\":").concat(
                    array_to_text(&contacts).as_str(),
                ).concat("}")
            },
            Err(e) => return Err(e),
        },
        BackendReply::UpdateContactField(result) => match conclude(result) {
            Ok(contact) => contact,
            Err(e) => return Err(e),
        },
        BackendReply::MergeCompanyAlias(result) => match conclude(result) {
            Ok(company) => company,
            Err(e) => return Err(e),
        },
        BackendReply::EnqueueEnrichment(result) => match conclude(result) {
            Ok(queued) => "{\"queued\":".to_string().concat(i64_to_text(queued).as_str()).concat(
                "}",
            ),
            Err(e) => return Err(e),
        },
        BackendReply::UpdateCompanyFields(result) => match conclude(result) {
            Ok(w) => write_result(
                "{\"company\":",
                &w.company,
                &w.fields_written,
                &w.fields_skipped_already_set,
            ),
            Err(e) => return Err(e),
        },
        BackendReply::ListCompaniesNeedingEnrichment(result) => match conclude(result) {
            Ok(companies) => "{\"companies\":".to_string().concat(
                array_to_text(&companies).as_str(),
            ).concat("}"),
            Err(e) => return Err(e),
        },
        BackendReply::UpdateContactFields(result) => match conclude(result) {
            Ok(w) => write_result(
                "{\"contact\":",
                &w.contact,
                &w.fields_written,
                &w.fields_skipped_already_set,
            ),
            Err(e) => return Err(e),
        },
        BackendReply::ListContactsNeedingEnrichment(result) => match conclude(result) {
            Ok(contacts) => "{\"contacts\":".to_string().concat(
                array_to_text(&contacts).as_str(),
            ).concat("}"),
            Err(e) => return Err(e),
        },
        BackendReply::BackupVault(path, result) => match conclude(result) {
            Ok(_) => "{\"backed_up_to\":".to_string().concat(
                quote_json(path.as_str()).as_str(),
            ).concat("}"),
            Err(e) => return Err(e),
        },
    };
    Ok(json_result(text))
}

} // verus!
