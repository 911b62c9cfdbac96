//! The server: what each tool asks of the backend.
//!
//! A tool call goes through three steps. A method of `McpServer` turns the tool's parameters into
//! a `BackendCall`; whoever runs the server makes that call; and `reply::answer` turns the
//! backend's reply into what the caller of the tool gets.

use rmcp::model::{Implementation, ServerCapabilities, ServerConfig};
use std::sync::Arc;
use vstd::prelude::*;

use crate::backend::BackendCall;
use crate::params::{
    BackupVaultParams, CompanyNetworkParams, EnqueueEnrichmentParams,
    ListCompaniesNeedingEnrichmentParams, ListContactsNeedingEnrichmentParams,
    MergeCompanyAliasParams, SearchContactsParams, UpdateCompanyFieldsParams,
    UpdateContactFieldParams, UpdateContactFieldsParams,
};

verus! {

/// The generic server over a backend. Its name and its instructions are shown to the client that
/// connects.
pub struct McpServer<B> {
    backend: Arc<B>,
    server_name: &'static str,
    instructions: &'static str,
}

/// What a server tells the client that connects.
#[derive(Debug)]
pub struct ServerDescription {
    pub name: String,
    pub version: String,
    pub instructions: Option<String>,
    pub capabilities: Capabilities,
}

/// Which of the protocol's capabilities a server offers.
#[derive(Debug)]
pub struct Capabilities {
    pub experimental: bool,
    pub extensions: bool,
    pub logging: bool,
    pub completions: bool,
    pub prompts: bool,
    pub resources: bool,
    pub tools: bool,
}

/// Tools, and nothing else.
pub open spec fn only_tools() -> Capabilities {
    Capabilities {
        experimental: false,
        extensions: false,
        logging: false,
        completions: false,
        prompts: false,
        resources: false,
        tools: true,
    }
}

/// The version that a server reports: that of the package.
pub const VERSION: &'static str = "0.1.0";

/// The number of rows to ask for: what the caller asked for, or else `default`, but at least one
/// and at most `cap`.
pub open spec fn effective_limit(requested: Option<i64>, default: i64, cap: i64) -> i64 {
    let limit = match requested {
        Some(n) => n,
        None => default,
    };
    if limit < 1 {
        1
    } else if limit > cap {
        cap
    } else {
        limit
    }
}

/// The number of rows to skip: what the caller asked for, or else none, but never below zero.
pub open spec fn effective_offset(requested: Option<i64>) -> i64 {
    match requested {
        Some(n) => if n < 0 {
            0
        } else {
            n
        },
        None => 0,
    }
}

/// A text, or else another.
pub open spec fn text_or(text: Option<Seq<char>>, default: Seq<char>) -> Seq<char> {
    match text {
        Some(t) => t,
        None => default,
    }
}

/// Calls `rmcp::model::ServerConfig::new` with the capabilities of a builder that has tools
/// enabled, then `with_server_info` and `with_instructions`. Trusted: the configuration has the
/// name, the version and the instructions that were given, and offers tools and nothing else.
#[verifier::external_body]
fn configure(name: &'static str, version: &'static str, instructions: &'static str) -> (r:
    ServerDescription)
    ensures
        r.name@ == name@,
        r.version@ == version@,
        r.instructions.deep_view() == Some(instructions@),
        r.capabilities == only_tools(),
{
    let config = ServerConfig::new(ServerCapabilities::builder().enable_tools().build())
        .with_server_info(Implementation::new(name, version))
        .with_instructions(instructions);
    let (info, c) = (config.server_info, config.capabilities);
    let capabilities = Capabilities {
        experimental: c.experimental.is_some(), extensions: c.extensions.is_some(),
        logging: c.logging.is_some(), completions: c.completions.is_some(),
        prompts: c.prompts.is_some(), resources: c.resources.is_some(), tools: c.tools.is_some(),
    };
    let (name, version, instructions) = (info.name, info.version, config.instructions);
    ServerDescription { name, version, instructions, capabilities }
}

/// The number of rows to ask for.
fn limit_within(requested: Option<i64>, default: i64, cap: i64) -> (r: i64)
    requires
        1 <= cap,
    ensures
        r == effective_limit(requested, default, cap),
{
    let limit: i64 = requested.unwrap_or(default);
    if limit < 1 {
        1
    } else if limit > cap {
        cap
    } else {
        limit
    }
}

/// A text, or else another: the status of a search, or else the backend's own.
pub fn or_text(text: Option<String>, default: &str) -> (r: String)
    ensures
        r@ == text_or(text.deep_view(), default@),
{
    match text {
        Some(t) => t,
        None => default.to_string(),
    }
}

impl<B: Clone> Clone for McpServer<B> {
    /// A server over the same backend, which the two share, with the same name and instructions.
    fn clone(&self) -> (r: Self)
        ensures
            r.backend_view() == self.backend_view(),
            r.name_view() == self.name_view(),
            r.instructions_view() == self.instructions_view(),
    {
        McpServer {
            backend: self.backend.clone(),
            server_name: self.server_name,
            instructions: self.instructions,
        }
    }
}

impl<B> McpServer<B> {
    /// The backend.
    pub closed spec fn backend_view(self) -> B {
        *self.backend
    }

    /// The name.
    pub closed spec fn name_view(self) -> Seq<char> {
        self.server_name@
    }

    /// The instructions.
    pub closed spec fn instructions_view(self) -> Seq<char> {
        self.instructions@
    }

    /// A server over `backend`. Pick a name and instructions that describe your own app: the
    /// client shows the one, and goes by the other to decide when to reach for the tools.
    pub fn new(backend: B, server_name: &'static str, instructions: &'static str) -> (r: Self)
        ensures
            r.backend_view() == backend,
            r.name_view() == server_name@,
            r.instructions_view() == instructions@,
    {
        McpServer { backend: Arc::new(backend), server_name, instructions }
    }

    /// The backend.
    pub fn backend(&self) -> (r: &Arc<B>)
        ensures
            **r == self.backend_view(),
    {
        &self.backend
    }

    /// The name.
    pub fn server_name(&self) -> (r: &'static str)
        ensures
            r@ == self.name_view(),
    {
        self.server_name
    }

    /// The instructions.
    pub fn instructions(&self) -> (r: &'static str)
        ensures
            r@ == self.instructions_view(),
    {
        self.instructions
    }

    /// What the server tells the client that connects: its name, its instructions, and that it
    /// offers tools and nothing else.
    pub fn get_info(&self) -> (r: ServerDescription)
        ensures
            r.name@ == self.name_view(),
            r.version@ == VERSION@,
            r.instructions.deep_view() == Some(self.instructions_view()),
            r.capabilities == only_tools(),
    {
        configure(self.server_name, VERSION, self.instructions)
    }

    /// Search contacts by free text: a page of 25 rows unless the caller asks for another size, at
    /// most 200, within the status that the caller gives; without one, which status holds is left to
    /// the backend.
    pub fn search_contacts(&self, p: SearchContactsParams) -> (r: BackendCall)
        ensures
            r matches BackendCall::SearchContacts { query, status, limit, offset } && {
                &&& query == p.query
                &&& status == p.status
                &&& limit == effective_limit(p.limit, 25, 200)
                &&& offset == effective_offset(p.offset)
            },
    {
        let limit: i64 = limit_within(p.limit, 25, 200);
        let requested: i64 = p.offset.unwrap_or(0);
        let offset: i64 = if requested < 0 {
            0
        } else {
            requested
        };
        BackendCall::SearchContacts { query: p.query, status: p.status, limit, offset }
    }

    /// Count contacts and companies.
    pub fn get_stats(&self) -> (r: BackendCall)
        ensures
            r == BackendCall::Stats,
    {
        BackendCall::Stats
    }

    /// Look up a company by name, with every contact at it.
    pub fn get_company_network(&self, p: CompanyNetworkParams) -> (r: BackendCall)
        ensures
            r == (BackendCall::CompanyNetwork { name: p.name }),
    {
        BackendCall::CompanyNetwork { name: p.name }
    }

    /// Update one field of a contact.
    pub fn update_contact_field(&self, p: UpdateContactFieldParams) -> (r: BackendCall)
        ensures
            r == (BackendCall::UpdateContactField {
                contact_id: p.contact_id,
                field: p.field,
                value: p.value,
            }),
    {
        BackendCall::UpdateContactField {
            contact_id: p.contact_id,
            field: p.field,
            value: p.value,
        }
    }

    /// Rename a company, or merge it into the one that has the name.
    pub fn merge_company_alias(&self, p: MergeCompanyAliasParams) -> (r: BackendCall)
        ensures
            r == (BackendCall::MergeCompanyAlias {
                company_id: p.company_id,
                new_name: p.new_name,
            }),
    {
        BackendCall::MergeCompanyAlias { company_id: p.company_id, new_name: p.new_name }
    }

    /// Flag contacts for manual follow-up.
    pub fn enqueue_enrichment(&self, p: EnqueueEnrichmentParams) -> (r: BackendCall)
        ensures
            r == (BackendCall::EnqueueEnrichment { contact_ids: p.contact_ids }),
    {
        BackendCall::EnqueueEnrichment { contact_ids: p.contact_ids }
    }

    /// Update some of a company's enrichment fields.
    pub fn update_company_fields(&self, p: UpdateCompanyFieldsParams) -> (r: BackendCall)
        ensures
            r == (BackendCall::UpdateCompanyFields {
                company_id: p.company_id,
                fields: p.fields,
                overwrite: p.overwrite,
            }),
    {
        BackendCall::UpdateCompanyFields {
            company_id: p.company_id,
            fields: p.fields,
            overwrite: p.overwrite,
        }
    }

    /// List companies that lack enrichment data: 50 unless the caller asks for another number, at
    /// most 500.
    pub fn list_companies_needing_enrichment(
        &self,
        p: ListCompaniesNeedingEnrichmentParams,
    ) -> (r: BackendCall)
        ensures
            r == (BackendCall::ListCompaniesNeedingEnrichment {
                limit: effective_limit(p.limit, 50, 500),
            }),
    {
        BackendCall::ListCompaniesNeedingEnrichment { limit: limit_within(p.limit, 50, 500) }
    }

    /// Update some of a contact's enrichment fields, skipping those that have a value unless the
    /// caller asks for another mode.
    pub fn update_contact_fields(&self, p: UpdateContactFieldsParams) -> (r: BackendCall)
        ensures
            r matches BackendCall::UpdateContactFields { contact_id, fields, write_mode } && {
                &&& contact_id == p.contact_id
                &&& fields == p.fields
                &&& write_mode@ == text_or(p.write_mode.deep_view(), "skip"@)
            },
    {
        BackendCall::UpdateContactFields {
            contact_id: p.contact_id,
            fields: p.fields,
            write_mode: or_text(p.write_mode, "skip"),
        }
    }

    /// List contacts that lack enrichment data: 50 unless the caller asks for another number, at
    /// most 200.
    pub fn list_contacts_needing_enrichment(
        &self,
        p: ListContactsNeedingEnrichmentParams,
    ) -> (r: BackendCall)
        ensures
            r == (BackendCall::ListContactsNeedingEnrichment {
                limit: effective_limit(p.limit, 50, 200),
            }),
    {
        BackendCall::ListContactsNeedingEnrichment { limit: limit_within(p.limit, 50, 200) }
    }

    /// Export a snapshot of the whole data source to a path.
    pub fn backup_vault(&self, p: BackupVaultParams) -> (r: BackendCall)
        ensures
            r == (BackendCall::BackupVault { path: p.path }),
    {
        BackendCall::BackupVault { path: p.path }
    }
}

} // verus!
