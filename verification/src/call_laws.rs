//! What each tool asks of the backend, and what a server tells of itself, in terms of what it was
//! given.

use std::sync::Arc;
use vstd::prelude::*;

use crate::backend::{
    default_backup_vault, default_list_companies_needing_enrichment,
    default_list_contacts_needing_enrichment, default_status, default_update_company_fields,
    default_update_contact_fields, BackendCall,
};
use crate::params::{
    BackupVaultParams, CompanyFieldsWriteResult, CompanyNetworkParams, ContactFieldsWriteResult,
    EnqueueEnrichmentParams, ListCompaniesNeedingEnrichmentParams,
    ListContactsNeedingEnrichmentParams, MergeCompanyAliasParams, SearchContactsParams,
    UpdateCompanyFieldsParams, UpdateContactFieldParams, UpdateContactFieldsParams,
};
use crate::server::{or_text, McpServer, ServerDescription};

verus! {

/// A search asks for the caller's query and status as they are, for a page of the caller's size
/// where that is from 1 to 200, of the nearest of those where it is not, and of 25 where the caller
/// gives none, from the caller's offset where that is not negative, and else from the start.
pub proof fn law_search_asks_for_what_the_caller_asks<B>(
    server: McpServer<B>,
    p: SearchContactsParams,
    call: BackendCall,
)
    requires
        call_ensures(McpServer::<B>::search_contacts, (&server, p), call),
    ensures
        call matches BackendCall::SearchContacts { query, status, limit, offset } && {
            &&& query@ == p.query@
            &&& status.deep_view() == p.status.deep_view()
            &&& 1 <= limit <= 200
            &&& p.limit is None ==> limit == 25
            &&& p.limit matches Some(n) ==> {
                &&& 1 <= n <= 200 ==> limit == n
                &&& n < 1 ==> limit == 1
                &&& n > 200 ==> limit == 200
            }
            &&& offset >= 0
            &&& p.offset is None ==> offset == 0
            &&& p.offset matches Some(n) ==> (n >= 0 ==> offset == n) && (n < 0 ==> offset == 0)
        },
{
}

/// A listing of companies asks for the caller's number where that is from 1 to 500, for the nearest
/// of those where it is not, and for 50 where the caller gives none.
pub proof fn law_company_listing_asks_for_what_the_caller_asks<B>(
    server: McpServer<B>,
    p: ListCompaniesNeedingEnrichmentParams,
    call: BackendCall,
)
    requires
        call_ensures(McpServer::<B>::list_companies_needing_enrichment, (&server, p), call),
    ensures
        call matches BackendCall::ListCompaniesNeedingEnrichment { limit } && {
            &&& 1 <= limit <= 500
            &&& p.limit is None ==> limit == 50
            &&& p.limit matches Some(n) ==> {
                &&& 1 <= n <= 500 ==> limit == n
                &&& n < 1 ==> limit == 1
                &&& n > 500 ==> limit == 500
            }
        },
{
}

/// A listing of contacts asks for the caller's number where that is from 1 to 200, for the nearest
/// of those where it is not, and for 50 where the caller gives none.
pub proof fn law_contact_listing_asks_for_what_the_caller_asks<B>(
    server: McpServer<B>,
    p: ListContactsNeedingEnrichmentParams,
    call: BackendCall,
)
    requires
        call_ensures(McpServer::<B>::list_contacts_needing_enrichment, (&server, p), call),
    ensures
        call matches BackendCall::ListContactsNeedingEnrichment { limit } && {
            &&& 1 <= limit <= 200
            &&& p.limit is None ==> limit == 50
            &&& p.limit matches Some(n) ==> {
                &&& 1 <= n <= 200 ==> limit == n
                &&& n < 1 ==> limit == 1
                &&& n > 200 ==> limit == 200
            }
        },
{
}

/// The counts are asked for as such.
pub proof fn law_stats_are_asked_for<B>(server: McpServer<B>, call: BackendCall)
    requires
        call_ensures(McpServer::<B>::get_stats, (&server,), call),
    ensures
        call is Stats,
{
}

/// A lookup asks for the company that the caller names.
pub proof fn law_lookup_asks_for_the_company_named<B>(
    server: McpServer<B>,
    p: CompanyNetworkParams,
    call: BackendCall,
)
    requires
        call_ensures(McpServer::<B>::get_company_network, (&server, p), call),
    ensures
        call matches BackendCall::CompanyNetwork { name } && name@ == p.name@,
{
}

/// An update of one field is of the caller's contact, field and value.
pub proof fn law_field_update_is_the_callers<B>(
    server: McpServer<B>,
    p: UpdateContactFieldParams,
    call: BackendCall,
)
    requires
        call_ensures(McpServer::<B>::update_contact_field, (&server, p), call),
    ensures
        call matches BackendCall::UpdateContactField { contact_id, field, value } && contact_id
            == p.contact_id && field@ == p.field@ && value@ == p.value@,
{
}

/// A merge is of the caller's company and name.
pub proof fn law_merge_is_the_callers<B>(
    server: McpServer<B>,
    p: MergeCompanyAliasParams,
    call: BackendCall,
)
    requires
        call_ensures(McpServer::<B>::merge_company_alias, (&server, p), call),
    ensures
        call matches BackendCall::MergeCompanyAlias { company_id, new_name } && company_id
            == p.company_id && new_name@ == p.new_name@,
{
}

/// All the contacts that the caller flags are flagged, in order, and no other.
pub proof fn law_every_contact_flagged_is_asked_for<B>(
    server: McpServer<B>,
    p: EnqueueEnrichmentParams,
    call: BackendCall,
)
    requires
        call_ensures(McpServer::<B>::enqueue_enrichment, (&server, p), call),
    ensures
        call matches BackendCall::EnqueueEnrichment { contact_ids } && contact_ids@
            == p.contact_ids@,
{
}

/// An update of a company is of the caller's company, with the caller's texts, every one, and
/// overwrites where the caller says so and nowhere else.
pub proof fn law_company_update_is_the_callers<B>(
    server: McpServer<B>,
    p: UpdateCompanyFieldsParams,
    call: BackendCall,
)
    requires
        call_ensures(McpServer::<B>::update_company_fields, (&server, p), call),
    ensures
        call matches BackendCall::UpdateCompanyFields { company_id, fields, overwrite } && {
            &&& company_id == p.company_id
            &&& overwrite == p.overwrite
            &&& fields.url.deep_view() == p.fields.url.deep_view()
            &&& fields.industry.deep_view() == p.fields.industry.deep_view()
            &&& fields.category.deep_view() == p.fields.category.deep_view()
            &&& fields.size_range.deep_view() == p.fields.size_range.deep_view()
            &&& fields.description.deep_view() == p.fields.description.deep_view()
            &&& fields.hq_location.deep_view() == p.fields.hq_location.deep_view()
            &&& fields.stock_symbol.deep_view() == p.fields.stock_symbol.deep_view()
            &&& fields.main_phone.deep_view() == p.fields.main_phone.deep_view()
        },
{
}

/// An update of a contact is of the caller's contact, with the caller's texts, every one, in the
/// caller's mode, or in mode "skip" where the caller gives none.
pub proof fn law_contact_update_is_the_callers<B>(
    server: McpServer<B>,
    p: UpdateContactFieldsParams,
    call: BackendCall,
)
    requires
        call_ensures(McpServer::<B>::update_contact_fields, (&server, p), call),
    ensures
        call matches BackendCall::UpdateContactFields { contact_id, fields, write_mode } && {
            &&& contact_id == p.contact_id
            &&& p.write_mode is None ==> write_mode@ == "skip"@
            &&& p.write_mode matches Some(mode) ==> write_mode@ == mode@
            &&& fields.schools_attended.deep_view() == p.fields.schools_attended.deep_view()
            &&& fields.previous_companies.deep_view() == p.fields.previous_companies.deep_view()
            &&& fields.previous_positions.deep_view() == p.fields.previous_positions.deep_view()
            &&& fields.geographic_location.deep_view() == p.fields.geographic_location.deep_view()
            &&& fields.ai_research_summary.deep_view() == p.fields.ai_research_summary.deep_view()
            &&& fields.mobile_phone.deep_view() == p.fields.mobile_phone.deep_view()
            &&& fields.home_phone.deep_view() == p.fields.home_phone.deep_view()
            &&& fields.business_phone.deep_view() == p.fields.business_phone.deep_view()
            &&& fields.home_address.deep_view() == p.fields.home_address.deep_view()
            &&& fields.websites.deep_view() == p.fields.websites.deep_view()
            &&& fields.instant_message.deep_view() == p.fields.instant_message.deep_view()
            &&& fields.birthday.deep_view() == p.fields.birthday.deep_view()
            &&& fields.secondary_email.deep_view() == p.fields.secondary_email.deep_view()
        },
{
}

/// A backup goes to the path that the caller chooses.
pub proof fn law_backup_goes_to_the_callers_path<B>(
    server: McpServer<B>,
    p: BackupVaultParams,
    call: BackendCall,
)
    requires
        call_ensures(McpServer::<B>::backup_vault, (&server, p), call),
    ensures
        call matches BackendCall::BackupVault { path } && path@ == p.path@,
{
}

/// A text that is given stands, whatever the other is; where none is given, the other does.
pub proof fn law_text_given_stands(text: Option<String>, default: &str, r: String)
    requires
        call_ensures(or_text, (text, default), r),
    ensures
        text matches Some(given) ==> r@ == given@,
        text is None ==> r@ == default@,
{
}

/// A server, and every clone of it, tells the client the whole name and the whole instructions that
/// it was made with, its version, and that it offers tools and nothing else; and it hands out the
/// backend that it was made over.
pub proof fn law_server_tells_what_it_was_made_with<B: Clone>(
    backend: B,
    server_name: &'static str,
    instructions: &'static str,
    server: McpServer<B>,
    clone: McpServer<B>,
    info: ServerDescription,
    info_of_clone: ServerDescription,
    name: &'static str,
    told: &'static str,
    served: &Arc<B>,
)
    requires
        call_ensures(McpServer::<B>::new, (backend, server_name, instructions), server),
        call_ensures(<McpServer<B> as Clone>::clone, (&server,), clone),
        call_ensures(McpServer::<B>::get_info, (&server,), info),
        call_ensures(McpServer::<B>::get_info, (&clone,), info_of_clone),
        call_ensures(McpServer::<B>::server_name, (&clone,), name),
        call_ensures(McpServer::<B>::instructions, (&clone,), told),
        call_ensures(McpServer::<B>::backend, (&clone,), served),
    ensures
        info.name@ == server_name@ && info_of_clone.name@ == server_name@,
        info.version@ == "0.1.0"@ && info_of_clone.version@ == "0.1.0"@,
        info.instructions matches Some(text) && text@ == instructions@,
        info_of_clone.instructions matches Some(text) && text@ == instructions@,
        info.capabilities.tools && !info.capabilities.prompts && !info.capabilities.resources
            && !info.capabilities.logging && !info.capabilities.completions
            && !info.capabilities.experimental && !info.capabilities.extensions,
        name@ == server_name@,
        told@ == instructions@,
        **served == backend,
{
}

/// A backend that leaves an update or a backup out refuses it with an error made from the words
/// that say so, a listing that it leaves out is empty, and a search without a status is then of the
/// active contacts.
pub proof fn law_what_a_backend_leaves_out_is_refused_by_name<Co, Ct, E: From<&'static str>>(
    company_update: Result<CompanyFieldsWriteResult<Co>, E>,
    companies: Result<Vec<Co>, E>,
    contact_update: Result<ContactFieldsWriteResult<Ct>, E>,
    contacts: Result<Vec<Ct>, E>,
    backup: Result<(), E>,
    status: &'static str,
)
    requires
        call_ensures(default_update_company_fields::<Co, E>, (), company_update),
        call_ensures(default_list_companies_needing_enrichment::<Co, E>, (), companies),
        call_ensures(default_update_contact_fields::<Ct, E>, (), contact_update),
        call_ensures(default_list_contacts_needing_enrichment::<Ct, E>, (), contacts),
        call_ensures(default_backup_vault::<E>, (), backup),
        call_ensures(default_status, (), status),
    ensures
        company_update matches Err(e) && call_ensures(
            <E as From<&'static str>>::from,
            ("update_company_fields is not supported by this backend",),
            e,
        ),
        contact_update matches Err(e) && call_ensures(
            <E as From<&'static str>>::from,
            ("update_contact_fields is not supported by this backend",),
            e,
        ),
        backup matches Err(e) && call_ensures(
            <E as From<&'static str>>::from,
            ("backup_vault is not supported by this backend",),
            e,
        ),
        companies matches Ok(list) && list@.len() == 0,
        contacts matches Ok(list) && list@.len() == 0,
        status@ == "active"@,
{
}

} // verus!
