//! Tool calls end to end, over a backend that supports only what it must.

use std::sync::Arc;
use vault_mcp_core::backend::{
    default_backup_vault, default_list_companies_needing_enrichment,
    default_list_contacts_needing_enrichment, default_status, default_update_company_fields,
    default_update_contact_fields, BackendCall,
};
use vault_mcp_core::error::DecodeError;
use vault_mcp_core::json::{parse_json, JsonValue};
use vault_mcp_core::params::{
    BackupVaultParams, CompanyNetworkParams, EnqueueEnrichmentParams,
    ListCompaniesNeedingEnrichmentParams, ListContactsNeedingEnrichmentParams,
    MergeCompanyAliasParams, SearchContactsParams, UpdateCompanyFieldsParams,
    UpdateContactFieldParams, UpdateContactFieldsParams,
};
use vault_mcp_core::reply::{answer, BackendReply, ToolResult};
use vault_mcp_core::server::or_text;
use vault_mcp_core::{
    CompanyFieldUpdates, CompanyFieldsWriteResult, ContactFieldUpdates, ContactFieldsWriteResult,
    McpServer,
};

/// Reads parameters from JSON text.
fn read<T>(
    decode: fn(&JsonValue) -> Result<T, DecodeError>,
    text: &str,
) -> Result<T, DecodeError> {
    decode(&parse_json(text)?)
}

/// A backend with the required operations and none of the others.
struct MinimalBackend;

impl MinimalBackend {
    fn perform(&self, call: BackendCall) -> BackendReply<String> {
        match call {
            BackendCall::SearchContacts { .. } => BackendReply::SearchContacts(Ok((0, vec![]))),
            BackendCall::Stats => BackendReply::Stats(Ok("{\"total\":0}".to_string())),
            BackendCall::CompanyNetwork { .. } => {
                BackendReply::CompanyNetwork(Ok((false, None, vec![])))
            }
            BackendCall::UpdateContactField { .. } => {
                BackendReply::UpdateContactField(Ok("{\"id\":1}".to_string()))
            }
            BackendCall::MergeCompanyAlias { .. } => {
                BackendReply::MergeCompanyAlias(Ok("{\"id\":1,\"name\":\"x\"}".to_string()))
            }
            BackendCall::EnqueueEnrichment { contact_ids } => {
                BackendReply::EnqueueEnrichment(Ok(contact_ids.len() as i64))
            }
            BackendCall::UpdateCompanyFields { .. } => {
                BackendReply::UpdateCompanyFields(default_update_company_fields())
            }
            BackendCall::ListCompaniesNeedingEnrichment { .. } => {
                BackendReply::ListCompaniesNeedingEnrichment(
                    default_list_companies_needing_enrichment(),
                )
            }
            BackendCall::UpdateContactFields { .. } => {
                BackendReply::UpdateContactFields(default_update_contact_fields())
            }
            BackendCall::ListContactsNeedingEnrichment { .. } => {
                BackendReply::ListContactsNeedingEnrichment(
                    default_list_contacts_needing_enrichment(),
                )
            }
            BackendCall::BackupVault { path } => {
                BackendReply::BackupVault(path, default_backup_vault())
            }
        }
    }
}

fn minimal_server() -> McpServer<MinimalBackend> {
    McpServer::new(MinimalBackend, "test-server", "test instructions")
}

fn text_of(result: &ToolResult) -> &str {
    match &result.content[0] {
        Some(text) => text,
        None => panic!("expected a text content block, got {:?}", result.content[0]),
    }
}

#[test]
fn email_inside_fields_object_is_rejected_not_silently_dropped() {
    let raw = r#"{"contact_id": 1, "fields": {"email": "x@example.com"}}"#;
    let err = read(UpdateContactFieldsParams::decode, raw)
        .expect_err("an unknown field inside `fields` must error, not silently ignore the value");
    assert!(
        err.message.contains("email"),
        "error should name the offending field: {}",
        err.message
    );
}

#[test]
fn email_at_top_level_is_also_rejected() {
    let raw = r#"{"contact_id": 1, "email": "x@example.com"}"#;
    let err = read(UpdateContactFieldsParams::decode, raw)
        .expect_err("an unknown top-level field must error, not silently ignore the value");
    assert!(
        err.message.contains("email"),
        "error should name the offending field: {}",
        err.message
    );
}

#[test]
fn default_update_contact_fields_returns_a_clear_not_supported_error() {
    let reply = MinimalBackend.perform(BackendCall::UpdateContactFields {
        contact_id: 1,
        fields: ContactFieldUpdates::default(),
        write_mode: "skip".to_string(),
    });
    let BackendReply::UpdateContactFields(result) = reply else {
        panic!("expected the reply to an update of a contact, got {:?}", reply);
    };
    let err = result
        .expect_err("a backend that doesn't override this must reject it, not silently succeed");
    assert!(
        err.contains("not supported"),
        "error should say the operation isn't supported: {err}"
    );
    assert_eq!(err, "update_contact_fields is not supported by this backend");
}

#[test]
fn default_list_contacts_needing_enrichment_returns_an_empty_list() {
    let reply = MinimalBackend.perform(BackendCall::ListContactsNeedingEnrichment { limit: 50 });
    let BackendReply::ListContactsNeedingEnrichment(result) = reply else {
        panic!("expected a list of contacts, got {:?}", reply);
    };
    let contacts =
        result.expect("the default must be Ok(empty), not an error — this one has no error path");
    assert!(contacts.is_empty());
}

#[test]
fn server_over_a_non_overriding_backend_still_answers_both_new_contact_tools() {
    let server = minimal_server();

    let update = server.update_contact_fields(UpdateContactFieldsParams {
        contact_id: 1,
        fields: ContactFieldUpdates::default(),
        write_mode: None,
    });
    let update_result = answer(server.backend().perform(update));
    assert!(update_result.is_err(), "tool call should surface the backend's not-supported error");

    let list = server
        .list_contacts_needing_enrichment(ListContactsNeedingEnrichmentParams { limit: None });
    let list_result = answer(server.backend().perform(list))
        .expect("list tool should succeed with an empty list, not error");
    let parsed: serde_json::Value = serde_json::from_str(text_of(&list_result)).unwrap();
    let expected: serde_json::Value = serde_json::from_str(r#"{ "contacts": [] }"#).unwrap();
    assert_eq!(parsed, expected);
}

#[test]
fn default_update_company_fields_returns_a_clear_not_supported_error() {
    let reply = MinimalBackend.perform(BackendCall::UpdateCompanyFields {
        company_id: 1,
        fields: CompanyFieldUpdates::default(),
        overwrite: false,
    });
    let BackendReply::UpdateCompanyFields(result) = reply else {
        panic!("expected the reply to an update of a company, got {:?}", reply);
    };
    let err = result
        .expect_err("a backend that doesn't override this must reject it, not silently succeed");
    assert!(
        err.contains("not supported"),
        "error should say the operation isn't supported: {err}"
    );
    assert_eq!(err, "update_company_fields is not supported by this backend");
}

#[test]
fn default_backup_vault_returns_a_clear_not_supported_error() {
    let reply =
        MinimalBackend.perform(BackendCall::BackupVault { path: "/tmp/whatever.db".to_string() });
    let BackendReply::BackupVault(path, result) = reply else {
        panic!("expected the reply to a backup, got {:?}", reply);
    };
    assert_eq!(path, "/tmp/whatever.db");
    let err = result
        .expect_err("a backend that doesn't override this must reject it, not silently succeed");
    assert!(
        err.contains("not supported"),
        "error should say the operation isn't supported: {err}"
    );
    assert_eq!(err, "backup_vault is not supported by this backend");
}

#[test]
fn server_over_a_non_overriding_backend_still_rejects_backup_vault() {
    let server = minimal_server();
    let backup = server.backup_vault(BackupVaultParams { path: "/tmp/whatever.db".to_string() });
    let result = answer(server.backend().perform(backup));
    assert!(result.is_err(), "tool call should surface the backend's not-supported error");
}

#[test]
fn default_list_companies_needing_enrichment_returns_an_empty_list() {
    let reply = MinimalBackend.perform(BackendCall::ListCompaniesNeedingEnrichment { limit: 50 });
    let BackendReply::ListCompaniesNeedingEnrichment(result) = reply else {
        panic!("expected a list of companies, got {:?}", reply);
    };
    let companies =
        result.expect("the default must be Ok(empty), not an error — this one has no error path");
    assert!(companies.is_empty());
}

#[test]
fn server_over_a_non_overriding_backend_still_answers_both_new_tools() {
    let server = minimal_server();

    let update = server.update_company_fields(UpdateCompanyFieldsParams {
        company_id: 1,
        fields: CompanyFieldUpdates::default(),
        overwrite: false,
    });
    let update_result = answer(server.backend().perform(update));
    assert!(update_result.is_err(), "tool call should surface the backend's not-supported error");

    let list = server
        .list_companies_needing_enrichment(ListCompaniesNeedingEnrichmentParams { limit: None });
    let list_result = answer(server.backend().perform(list))
        .expect("list tool should succeed with an empty list, not error");
    let parsed: serde_json::Value = serde_json::from_str(text_of(&list_result)).unwrap();
    let expected: serde_json::Value = serde_json::from_str(r#"{ "companies": [] }"#).unwrap();
    assert_eq!(parsed, expected);
}

// ---- What each tool asks of the backend ------------------------------------------------------

fn search(limit: Option<i64>, offset: Option<i64>, status: Option<&str>) -> (Option<String>, i64, i64) {
    let call = minimal_server().search_contacts(SearchContactsParams {
        query: "ada".to_string(),
        status: status.map(|s| s.to_string()),
        limit,
        offset,
    });
    match call {
        BackendCall::SearchContacts { query, status, limit, offset } => {
            assert_eq!(query, "ada");
            (status, limit, offset)
        }
        other => panic!("expected a search, got {:?}", other),
    }
}

#[test]
fn a_search_without_further_parameters_has_the_defaults() {
    assert_eq!(search(None, None, None), (None, 25, 0));
}

#[test]
fn a_search_keeps_its_limit_within_bounds() {
    assert_eq!(search(Some(0), None, None).1, 1);
    assert_eq!(search(Some(-7), None, None).1, 1);
    assert_eq!(search(Some(i64::MIN), None, None).1, 1);
    assert_eq!(search(Some(1), None, None).1, 1);
    assert_eq!(search(Some(73), None, None).1, 73);
    assert_eq!(search(Some(200), None, None).1, 200);
    assert_eq!(search(Some(201), None, None).1, 200);
    assert_eq!(search(Some(i64::MAX), None, None).1, 200);
}

#[test]
fn a_search_never_skips_a_negative_number_of_rows() {
    assert_eq!(search(None, Some(-1), None).2, 0);
    assert_eq!(search(None, Some(i64::MIN), None).2, 0);
    assert_eq!(search(None, Some(0), None).2, 0);
    assert_eq!(search(None, Some(40), None).2, 40);
    assert_eq!(search(None, Some(i64::MAX), None).2, i64::MAX);
}

#[test]
fn a_search_hands_its_status_on() {
    assert_eq!(search(None, None, Some("archived")).0.as_deref(), Some("archived"));
    assert_eq!(search(None, None, Some("")).0.as_deref(), Some(""));
}

#[test]
fn a_search_without_a_status_goes_by_the_default_of_the_backend() {
    assert_eq!(or_text(search(None, None, None).0, "current"), "current");
    assert_eq!(or_text(search(None, None, None).0, default_status()), "active");
    assert_eq!(or_text(search(None, None, Some("archived")).0, "current"), "archived");
    assert_eq!(or_text(search(None, None, Some("")).0, "current"), "");
}

/// A backend that tells how often it was copied.
struct CountingBackend {
    copies: u32,
}

impl Clone for CountingBackend {
    fn clone(&self) -> Self {
        CountingBackend { copies: self.copies + 1 }
    }
}

#[test]
fn a_clone_serves_the_same_backend() {
    let server = McpServer::new(CountingBackend { copies: 0 }, "", "instructions");
    let clone = server.clone();
    let clone_of_clone = clone.clone();
    for other in [&clone, &clone_of_clone] {
        assert!(Arc::ptr_eq(server.backend(), other.backend()));
        assert_eq!(other.backend().copies, 0);
        assert_eq!((other.server_name(), other.instructions()), ("", "instructions"));
    }
}

#[test]
fn the_listings_have_caps_of_their_own() {
    let server = minimal_server();
    let companies = |limit: Option<i64>| {
        match server
            .list_companies_needing_enrichment(ListCompaniesNeedingEnrichmentParams { limit })
        {
            BackendCall::ListCompaniesNeedingEnrichment { limit } => limit,
            other => panic!("expected a listing, got {:?}", other),
        }
    };
    let contacts = |limit: Option<i64>| {
        match server.list_contacts_needing_enrichment(ListContactsNeedingEnrichmentParams { limit })
        {
            BackendCall::ListContactsNeedingEnrichment { limit } => limit,
            other => panic!("expected a listing, got {:?}", other),
        }
    };
    assert_eq!([companies(None), companies(Some(0)), companies(Some(501))], [50, 1, 500]);
    assert_eq!([contacts(None), contacts(Some(0)), contacts(Some(501))], [50, 1, 200]);
    assert_eq!([companies(Some(300)), contacts(Some(300))], [300, 200]);
}

#[test]
fn the_other_tools_hand_their_parameters_on() {
    let server = minimal_server();
    assert!(matches!(server.get_stats(), BackendCall::Stats));
    assert!(matches!(
        server.get_company_network(CompanyNetworkParams { name: "Acme".to_string() }),
        BackendCall::CompanyNetwork { name } if name == "Acme"
    ));
    assert!(matches!(
        server.update_contact_field(UpdateContactFieldParams {
            contact_id: 7,
            field: "email".to_string(),
            value: "a@b.c".to_string(),
        }),
        BackendCall::UpdateContactField { contact_id: 7, field, value }
            if field == "email" && value == "a@b.c"
    ));
    assert!(matches!(
        server.merge_company_alias(MergeCompanyAliasParams {
            company_id: 3,
            new_name: "Acme".to_string(),
        }),
        BackendCall::MergeCompanyAlias { company_id: 3, new_name } if new_name == "Acme"
    ));
    assert!(matches!(
        server.enqueue_enrichment(EnqueueEnrichmentParams { contact_ids: vec![1, 2, 3] }),
        BackendCall::EnqueueEnrichment { contact_ids } if contact_ids == [1, 2, 3]
    ));
    assert!(matches!(
        server.backup_vault(BackupVaultParams { path: "/b.db".to_string() }),
        BackendCall::BackupVault { path } if path == "/b.db"
    ));
}

#[test]
fn the_updates_hand_their_fields_on() {
    let server = minimal_server();
    let company = server.update_company_fields(UpdateCompanyFieldsParams {
        company_id: 5,
        fields: CompanyFieldUpdates {
            url: Some("https://www.acme.com".to_string()),
            ..CompanyFieldUpdates::default()
        },
        overwrite: true,
    });
    match company {
        BackendCall::UpdateCompanyFields { company_id, fields, overwrite } => {
            assert_eq!((company_id, overwrite), (5, true));
            assert_eq!(fields.url.as_deref(), Some("https://www.acme.com"));
            assert_eq!(fields.industry, None);
        }
        other => panic!("expected an update of a company, got {:?}", other),
    }
    for (given, handed_on) in [(None, "skip"), (Some("append"), "append"), (Some(""), "")] {
        let contact = server.update_contact_fields(UpdateContactFieldsParams {
            contact_id: 6,
            fields: ContactFieldUpdates {
                birthday: Some("November 22".to_string()),
                ..ContactFieldUpdates::default()
            },
            write_mode: given.map(|mode: &str| mode.to_string()),
        });
        match contact {
            BackendCall::UpdateContactFields { contact_id, fields, write_mode } => {
                assert_eq!(contact_id, 6);
                assert_eq!(fields.birthday.as_deref(), Some("November 22"));
                assert_eq!(fields.secondary_email, None);
                assert_eq!(write_mode, handed_on);
            }
            other => panic!("expected an update of a contact, got {:?}", other),
        }
    }
}

#[test]
fn a_server_tells_its_name_and_instructions() {
    let info = minimal_server().get_info();
    assert_eq!(info.name, "test-server");
    assert_eq!(info.version, "0.1.0");
    assert_eq!(info.instructions.as_deref(), Some("test instructions"));
    let c = info.capabilities;
    assert!(c.tools);
    let others =
        [c.experimental, c.extensions, c.logging, c.completions, c.prompts, c.resources];
    assert_eq!(others, [false; 6]);
    assert_eq!(minimal_server().server_name(), "test-server");
    assert_eq!(minimal_server().instructions(), "test instructions");
}

// ---- What the caller of a tool gets ----------------------------------------------------------

fn text_for(reply: BackendReply<String>) -> String {
    let result = answer(reply).expect("the reply is no error");
    assert_eq!(result.content.len(), 1);
    assert_eq!(result.is_error, Some(false));
    text_of(&result).to_string()
}

#[test]
fn a_page_of_contacts_tells_the_total_apart() {
    let page = vec!["{\"id\":1}".to_string(), "{\"id\":2}".to_string()];
    assert_eq!(
        text_for(BackendReply::SearchContacts(Ok((1234, page)))),
        r#"{"total_matches":1234,"results":[{"id":1},{"id":2}]}"#
    );
    assert_eq!(
        text_for(BackendReply::SearchContacts(Ok((0, vec![])))),
        r#"{"total_matches":0,"results":[]}"#
    );
    assert_eq!(
        text_for(BackendReply::SearchContacts(Ok((i64::MIN, vec![])))),
        r#"{"total_matches":-9223372036854775808,"results":[]}"#
    );
}

#[test]
fn a_company_that_is_not_found_is_no_error() {
    assert_eq!(
        text_for(BackendReply::CompanyNetwork(Ok((false, None, vec![])))),
        r#"{"found":false,"company":null,"contacts":[]}"#
    );
    assert_eq!(
        text_for(BackendReply::CompanyNetwork(Ok((
            true,
            Some("{\"id\":9}".to_string()),
            vec!["{\"id\":1}".to_string()],
        )))),
        r#"{"found":true,"company":{"id":9},"contacts":[{"id":1}]}"#
    );
}

#[test]
fn records_and_counts_are_handed_on() {
    assert_eq!(text_for(BackendReply::Stats(Ok("{\"total\":0}".to_string()))), r#"{"total":0}"#);
    assert_eq!(
        text_for(BackendReply::UpdateContactField(Ok("{\"id\":1}".to_string()))),
        r#"{"id":1}"#
    );
    assert_eq!(
        text_for(BackendReply::MergeCompanyAlias(Ok("{\"id\":2}".to_string()))),
        r#"{"id":2}"#
    );
    assert_eq!(text_for(BackendReply::EnqueueEnrichment(Ok(3))), r#"{"queued":3}"#);
    assert_eq!(
        text_for(BackendReply::ListCompaniesNeedingEnrichment(Ok(vec!["1".to_string()]))),
        r#"{"companies":[1]}"#
    );
    assert_eq!(
        text_for(BackendReply::ListContactsNeedingEnrichment(Ok(vec!["2".to_string()]))),
        r#"{"contacts":[2]}"#
    );
}

#[test]
fn an_update_tells_what_was_written_and_what_was_not() {
    assert_eq!(
        text_for(BackendReply::UpdateCompanyFields(Ok(CompanyFieldsWriteResult {
            company: "{\"id\":1}".to_string(),
            fields_written: vec!["url", "industry"],
            fields_skipped_already_set: vec![],
        }))),
        r#"{"company":{"id":1},"fields_written":["url","industry"],"fields_skipped_already_set":[]}"#
    );
    assert_eq!(
        text_for(BackendReply::UpdateContactFields(Ok(ContactFieldsWriteResult {
            contact: "{\"id\":1}".to_string(),
            fields_written: vec![],
            fields_skipped_already_set: vec!["birthday"],
        }))),
        r#"{"contact":{"id":1},"fields_written":[],"fields_skipped_already_set":["birthday"]}"#
    );
}

#[test]
fn a_backup_tells_where_it_went() {
    assert_eq!(
        text_for(BackendReply::BackupVault("/tmp/a \"b\"\\c\n.db".to_string(), Ok(()))),
        r#"{"backed_up_to":"/tmp/a \"b\"\\c\n.db"}"#
    );
}

#[test]
fn each_call_is_answered_in_its_own_form() {
    let server = minimal_server();
    let text = |call: BackendCall| text_for(server.backend().perform(call));
    let search = SearchContactsParams {
        query: "ada".to_string(),
        status: None,
        limit: None,
        offset: None,
    };
    assert_eq!(text(server.search_contacts(search)), r#"{"total_matches":0,"results":[]}"#);
    assert_eq!(text(server.get_stats()), r#"{"total":0}"#);
    let flag = EnqueueEnrichmentParams { contact_ids: vec![4, 5] };
    assert_eq!(text(server.enqueue_enrichment(flag)), r#"{"queued":2}"#);
    let backup = server.backup_vault(BackupVaultParams { path: "/a/b.db".to_string() });
    let BackendCall::BackupVault { path } = backup else {
        panic!("expected a backup, got {:?}", backup);
    };
    assert_eq!(
        text_for(BackendReply::BackupVault(path, Ok(()))),
        r#"{"backed_up_to":"/a/b.db"}"#
    );
}

#[test]
fn the_error_of_a_backend_is_surfaced() {
    let boom = || "boom".to_string();
    let replies = [
        BackendReply::SearchContacts(Err(boom())),
        BackendReply::Stats(Err(boom())),
        BackendReply::CompanyNetwork(Err(boom())),
        BackendReply::UpdateContactField(Err(boom())),
        BackendReply::MergeCompanyAlias(Err(boom())),
        BackendReply::EnqueueEnrichment(Err(boom())),
        BackendReply::UpdateCompanyFields(Err(boom())),
        BackendReply::ListCompaniesNeedingEnrichment(Err(boom())),
        BackendReply::UpdateContactFields(Err(boom())),
        BackendReply::ListContactsNeedingEnrichment(Err(boom())),
        BackendReply::BackupVault("/b.db".to_string(), Err(boom())),
    ];
    for reply in replies {
        let error = answer(reply).expect_err("the reply is an error");
        assert_eq!(error.code, -32603);
        assert_eq!(error.message, "boom");
        assert_eq!(error.data, None);
    }
}

#[test]
fn the_text_of_an_error_is_what_it_displays() {
    let error = answer::<i64>(BackendReply::Stats(Err(-42))).expect_err("the reply is an error");
    assert_eq!(error.message, "-42");
}
