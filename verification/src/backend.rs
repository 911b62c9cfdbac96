//! The backend: the operations that a tool call comes down to, and what a backend answers that
//! leaves out the ones it may.

use vstd::prelude::*;

use crate::params::{
    CompanyFieldUpdates, CompanyFieldsWriteResult, ContactFieldUpdates, ContactFieldsWriteResult,
};

verus! {

/// A call of one of a backend's operations, with its arguments.
#[derive(Debug)]
#[allow(inconsistent_fields)]
pub enum BackendCall {
    /// Search contacts by free text, one page of them, within a status, or else within the
    /// backend's own default.
    SearchContacts { query: String, status: Option<String>, limit: i64, offset: i64 },
    /// Count contacts and companies.
    Stats,
    /// Look up a company and every contact at it.
    CompanyNetwork { name: String },
    /// Update one field of a contact.
    UpdateContactField { contact_id: i64, field: String, value: String },
    /// Rename a company, or merge it into the one that has the name.
    MergeCompanyAlias { company_id: i64, new_name: String },
    /// Flag contacts for manual follow-up.
    EnqueueEnrichment { contact_ids: Vec<i64> },
    /// Update some of a company's enrichment fields.
    UpdateCompanyFields { company_id: i64, fields: CompanyFieldUpdates, overwrite: bool },
    /// List companies that lack enrichment data.
    ListCompaniesNeedingEnrichment { limit: i64 },
    /// Update some of a contact's enrichment fields.
    UpdateContactFields { contact_id: i64, fields: ContactFieldUpdates, write_mode: String },
    /// List contacts that lack enrichment data.
    ListContactsNeedingEnrichment { limit: i64 },
    /// Export a snapshot of the whole data source to a path.
    BackupVault { path: String },
}

/// The status that a search without one goes by, of a backend that names no default of its own.
pub fn default_status() -> (r: &'static str)
    ensures
        r@ == "active"@,
{
    "active"
}

/// Whether `e` is what an error type makes of a message.
pub open spec fn made_from<E: From<&'static str>>(e: E, message: &'static str) -> bool {
    call_ensures(<E as From<&'static str>>::from, (message,), e)
}

/// The reply to `update_company_fields` of a backend that does not support it.
pub fn default_update_company_fields<Co, E: From<&'static str>>() -> (r: Result<
    CompanyFieldsWriteResult<Co>,
    E,
>)
    ensures
        r matches Err(e) && made_from(e, "update_company_fields is not supported by this backend"),
{
    Err(E::from("update_company_fields is not supported by this backend"))
}

/// The reply to `list_companies_needing_enrichment` of a backend that does not support it.
pub fn default_list_companies_needing_enrichment<Co, E>() -> (r: Result<Vec<Co>, E>)
    ensures
        r matches Ok(companies) && companies@ == Seq::<Co>::empty(),
{
    Ok(Vec::new())
}

/// The reply to `update_contact_fields` of a backend that does not support it.
pub fn default_update_contact_fields<Ct, E: From<&'static str>>() -> (r: Result<
    ContactFieldsWriteResult<Ct>,
    E,
>)
    ensures
        r matches Err(e) && made_from(e, "update_contact_fields is not supported by this backend"),
{
    Err(E::from("update_contact_fields is not supported by this backend"))
}

/// The reply to `list_contacts_needing_enrichment` of a backend that does not support it.
pub fn default_list_contacts_needing_enrichment<Ct, E>() -> (r: Result<Vec<Ct>, E>)
    ensures
        r matches Ok(contacts) && contacts@ == Seq::<Ct>::empty(),
{
    Ok(Vec::new())
}

/// The reply to `backup_vault` of a backend that does not support it.
pub fn default_backup_vault<E: From<&'static str>>() -> (r: Result<(), E>)
    ensures
        r matches Err(e) && made_from(e, "backup_vault is not supported by this backend"),
{
    Err(E::from("backup_vault is not supported by this backend"))
}

} // verus!
