//! Parameters read from JSON: what is taken, what is refused, and in which words.

use vault_mcp_core::error::DecodeError;
use vault_mcp_core::json::{parse_json, JsonValue};
use vault_mcp_core::params::{
    BackupVaultParams, CompanyNetworkParams, EnqueueEnrichmentParams,
    ListCompaniesNeedingEnrichmentParams, ListContactsNeedingEnrichmentParams,
    MergeCompanyAliasParams, SearchContactsParams, UpdateCompanyFieldsParams,
    UpdateContactFieldParams, UpdateContactFieldsParams,
};
use vault_mcp_core::{CompanyFieldUpdates, ContactFieldUpdates};

/// Reads parameters from JSON text.
fn read<T>(
    decode: fn(&JsonValue) -> Result<T, DecodeError>,
    text: &str,
) -> Result<T, DecodeError> {
    decode(&parse_json(text)?)
}

fn refusal<T: std::fmt::Debug>(r: Result<T, DecodeError>) -> String {
    r.expect_err("the parameters are refused").message
}

const CONTACT_NAMES: &str = "one of `schools_attended`, `previous_companies`, \
     `previous_positions`, `geographic_location`, `ai_research_summary`, `mobile_phone`, \
     `home_phone`, `business_phone`, `home_address`, `websites`, `instant_message`, `birthday`, \
     `secondary_email`";

#[test]
fn every_tool_reads_its_parameters() {
    let p = read(SearchContactsParams::decode, r#"{"query":"ada","status":"all","limit":10,"offset":"20"}"#,
    )
    .unwrap();
    assert_eq!(p.query, "ada");
    assert_eq!(p.status.as_deref(), Some("all"));
    assert_eq!((p.limit, p.offset), (Some(10), Some(20)));

    assert_eq!(read(CompanyNetworkParams::decode, r#"{"name":"Acme"}"#).unwrap().name, "Acme");

    let p = read(UpdateContactFieldParams::decode, r#"{"contact_id":7,"field":"email","value":"a@b.c"}"#,
    )
    .unwrap();
    assert_eq!((p.contact_id, p.field.as_str(), p.value.as_str()), (7, "email", "a@b.c"));

    let p = read(MergeCompanyAliasParams::decode, r#"{"company_id":-3,"new_name":"Acme"}"#).unwrap();
    assert_eq!((p.company_id, p.new_name.as_str()), (-3, "Acme"));

    let p = read(EnqueueEnrichmentParams::decode, r#"{"contact_ids":[1,-2,3]}"#).unwrap();
    assert_eq!(p.contact_ids, [1, -2, 3]);

    let p = read(ListCompaniesNeedingEnrichmentParams::decode, r#"{"limit":"7"}"#).unwrap();
    assert_eq!(p.limit, Some(7));

    let p = read(ListContactsNeedingEnrichmentParams::decode, r#"{"limit":8}"#).unwrap();
    assert_eq!(p.limit, Some(8));

    assert_eq!(read(BackupVaultParams::decode, r#"{"path":"/b.db"}"#).unwrap().path, "/b.db");
}

#[test]
fn an_absent_parameter_has_its_default() {
    let p = read(SearchContactsParams::decode, r#"{"query":""}"#).unwrap();
    assert_eq!((p.status, p.limit, p.offset), (None, None, None));

    let p = read(UpdateCompanyFieldsParams::decode, r#"{"company_id":1}"#).unwrap();
    assert!(!p.overwrite);
    assert_eq!(p.fields.url, None);
    assert_eq!(p.fields.main_phone, None);

    let p = read(UpdateContactFieldsParams::decode, r#"{"contact_id":1}"#).unwrap();
    assert_eq!(p.write_mode, None);
    assert_eq!(p.fields.schools_attended, None);
    assert_eq!(p.fields.secondary_email, None);

    assert_eq!(read(ListCompaniesNeedingEnrichmentParams::decode, "{}").unwrap().limit, None);
    assert_eq!(read(ListContactsNeedingEnrichmentParams::decode, "{}").unwrap().limit, None);
}

#[test]
fn null_stands_for_the_default_of_an_optional_parameter() {
    let p = read(SearchContactsParams::decode, r#"{"query":"","status":null,"limit":null,"offset":null}"#,
    )
    .unwrap();
    assert_eq!((p.status, p.limit, p.offset), (None, None, None));
    assert_eq!(
        refusal(read(UpdateCompanyFieldsParams::decode, r#"{"company_id":1,"overwrite":null}"#)),
        "invalid type: null, expected a boolean"
    );
    assert_eq!(
        refusal(read(UpdateCompanyFieldsParams::decode, r#"{"company_id":1,"fields":null}"#)),
        "invalid type: null, expected struct CompanyFieldUpdates"
    );
}

#[test]
fn a_missing_parameter_is_refused() {
    assert_eq!(refusal(read(SearchContactsParams::decode, "{}")), "missing field `query`");
    assert_eq!(refusal(read(CompanyNetworkParams::decode, "{}")), "missing field `name`");
    assert_eq!(
        refusal(read(UpdateContactFieldParams::decode, r#"{"value":""}"#)),
        "missing field `contact_id`"
    );
    assert_eq!(
        refusal(read(UpdateContactFieldParams::decode, r#"{"contact_id":1,"value":""}"#)),
        "missing field `field`"
    );
    assert_eq!(
        refusal(read(MergeCompanyAliasParams::decode, r#"{"company_id":1}"#)),
        "missing field `new_name`"
    );
    assert_eq!(refusal(read(EnqueueEnrichmentParams::decode, "{}")), "missing field `contact_ids`");
    assert_eq!(refusal(read(UpdateCompanyFieldsParams::decode, "{}")), "missing field `company_id`");
    assert_eq!(refusal(read(UpdateContactFieldsParams::decode, "{}")), "missing field `contact_id`");
    assert_eq!(refusal(read(BackupVaultParams::decode, "{}")), "missing field `path`");
}

#[test]
fn the_refusal_of_an_unknown_contact_field_names_it() {
    assert_eq!(
        refusal(read(UpdateContactFieldsParams::decode, r#"{"contact_id":1,"fields":{"email":"x@example.com"}}"#
        )),
        format!("unknown field `email`, expected {CONTACT_NAMES}")
    );
    assert_eq!(
        refusal(read(UpdateContactFieldsParams::decode, r#"{"contact_id":1,"email":"x@example.com"}"#
        )),
        "unknown field `email`, expected one of `contact_id`, `fields`, `write_mode`"
    );
    let fields = parse_json(r#"{"birthday":"May 1","email":"x@example.com"}"#).unwrap();
    assert_eq!(
        refusal(ContactFieldUpdates::decode(&fields)),
        format!("unknown field `email`, expected {CONTACT_NAMES}")
    );
}

#[test]
fn an_unknown_member_is_passed_over_where_it_is_tolerated() {
    let p = read(SearchContactsParams::decode, r#"{"extra":[1,{}],"query":"ada"}"#).unwrap();
    assert_eq!(p.query, "ada");
    let p = read(UpdateCompanyFieldsParams::decode, r#"{"company_id":1,"fields":{"email":"x","url":"u"}}"#,
    )
    .unwrap();
    assert_eq!(p.fields.url.as_deref(), Some("u"));
}

#[test]
fn nothing_in_the_fields_of_a_contact_is_dropped() {
    let p = read(UpdateContactFieldsParams::decode, r#"{
            "contact_id": 4,
            "write_mode": "append",
            "fields": {
                "schools_attended": "a", "previous_companies": "b", "previous_positions": "c",
                "geographic_location": "d", "ai_research_summary": "e", "mobile_phone": "f",
                "home_phone": "g", "business_phone": "h", "home_address": "i", "websites": "j",
                "instant_message": "k", "birthday": "l", "secondary_email": "m"
            }
        }"#,
    )
    .unwrap();
    assert_eq!(p.contact_id, 4);
    assert_eq!(p.write_mode.as_deref(), Some("append"));
    let f = p.fields;
    let texts = [
        f.schools_attended,
        f.previous_companies,
        f.previous_positions,
        f.geographic_location,
        f.ai_research_summary,
        f.mobile_phone,
        f.home_phone,
        f.business_phone,
        f.home_address,
        f.websites,
        f.instant_message,
        f.birthday,
        f.secondary_email,
    ];
    let texts: Vec<String> = texts.into_iter().map(|t| t.unwrap()).collect();
    assert_eq!(texts.concat(), "abcdefghijklm");
}

#[test]
fn nothing_in_the_fields_of_a_company_is_dropped() {
    let p = read(UpdateCompanyFieldsParams::decode, r#"{
            "company_id": 4,
            "overwrite": true,
            "fields": {
                "url": "a", "industry": "b", "category": "c", "size_range": "d",
                "description": "e", "hq_location": "f", "stock_symbol": "g", "main_phone": "h"
            }
        }"#,
    )
    .unwrap();
    assert_eq!((p.company_id, p.overwrite), (4, true));
    let f = p.fields;
    let texts = [
        f.url,
        f.industry,
        f.category,
        f.size_range,
        f.description,
        f.hq_location,
        f.stock_symbol,
        f.main_phone,
    ];
    let texts: Vec<String> = texts.into_iter().map(|t| t.unwrap()).collect();
    assert_eq!(texts.concat(), "abcdefgh");
}

fn text(s: &str) -> JsonValue {
    JsonValue::Text(s.to_string())
}

#[test]
fn a_second_member_for_one_parameter_is_refused() {
    let twice = JsonValue::Object(vec![
        ("name".to_string(), text("Acme")),
        ("name".to_string(), text("Acme")),
    ]);
    assert_eq!(refusal(CompanyNetworkParams::decode(&twice)), "duplicate field `name`");
    let twice = JsonValue::Object(vec![
        ("birthday".to_string(), text("May 1")),
        ("websites".to_string(), text("w")),
        ("birthday".to_string(), text("May 2")),
    ]);
    assert_eq!(refusal(ContactFieldUpdates::decode(&twice)), "duplicate field `birthday`");
    let params = JsonValue::Object(vec![
        ("contact_id".to_string(), parse_json("1").unwrap()),
        ("fields".to_string(), twice),
    ]);
    assert_eq!(refusal(UpdateContactFieldsParams::decode(&params)), "duplicate field `birthday`");
}

#[test]
fn the_first_refusal_is_the_one_that_is_told() {
    let value = JsonValue::Object(vec![
        ("fields".to_string(), JsonValue::Bool(true)),
        ("email".to_string(), text("x@example.com")),
    ]);
    assert_eq!(
        refusal(UpdateContactFieldsParams::decode(&value)),
        "invalid type: boolean `true`, expected struct ContactFieldUpdates"
    );
    let value = JsonValue::Object(vec![
        ("email".to_string(), text("x@example.com")),
        ("fields".to_string(), JsonValue::Bool(true)),
    ]);
    assert_eq!(
        refusal(UpdateContactFieldsParams::decode(&value)),
        "unknown field `email`, expected one of `contact_id`, `fields`, `write_mode`"
    );
}

#[test]
fn an_array_gives_the_parameters_by_position() {
    let p = read(SearchContactsParams::decode, r#"["ada","all",10]"#).unwrap();
    assert_eq!(p.query, "ada");
    assert_eq!(p.status.as_deref(), Some("all"));
    assert_eq!((p.limit, p.offset), (Some(10), None));
    assert_eq!(
        refusal(read(SearchContactsParams::decode, "[]")),
        "invalid length 0, expected struct SearchContactsParams with 4 elements"
    );
    assert_eq!(
        refusal(read(CompanyNetworkParams::decode, "[]")),
        "invalid length 0, expected struct CompanyNetworkParams with 1 element"
    );
    assert_eq!(
        refusal(read(UpdateContactFieldParams::decode, "[1]")),
        "invalid length 1, expected struct UpdateContactFieldParams with 3 elements"
    );
    assert_eq!(
        refusal(read(CompanyNetworkParams::decode, r#"["Acme","x",true]"#)),
        "invalid length 3, expected fewer elements in array"
    );
    assert_eq!(
        refusal(read(CompanyNetworkParams::decode, "[3]")),
        "invalid type: integer `3`, expected a string"
    );
}

#[test]
fn nothing_but_an_object_or_an_array_gives_parameters() {
    for (json, name) in [
        ("null", "null"),
        ("true", "boolean `true`"),
        ("false", "boolean `false`"),
        ("3", "integer `3`"),
        ("1.5", "floating point `1.5`"),
        (r#""a\"b""#, r#"string "a\"b""#),
    ] {
        assert_eq!(
            refusal(read(CompanyNetworkParams::decode, json)),
            format!("invalid type: {name}, expected struct CompanyNetworkParams")
        );
    }
}

fn value(json: &str) -> serde_json::Value {
    serde_json::from_str(json).unwrap()
}

const VALUES: [&str; 18] = [
    "null",
    "true",
    "false",
    "0",
    "-1",
    "9223372036854775807",
    "-9223372036854775808",
    "9223372036854775808",
    "18446744073709551615",
    "18446744073709551616",
    "1.5",
    "1e3",
    "0.1",
    r#""text""#,
    r#""tab\t quote\" \u00e9 \u0000""#,
    "[]",
    "{}",
    r#"[1,2,"x"]"#,
];

#[test]
fn a_text_is_read_as_serde_reads_one() {
    for json in VALUES {
        let read = read(CompanyNetworkParams::decode, &format!("{{\"name\":{json}}}"));
        match serde_json::from_value::<String>(value(json)) {
            Ok(text) => assert_eq!(read.unwrap().name, text),
            Err(e) => assert_eq!(refusal(read), e.to_string()),
        }
    }
}

#[test]
fn an_optional_text_is_read_as_serde_reads_one() {
    for json in VALUES {
        let read = read(UpdateContactFieldsParams::decode, &format!(
            "{{\"contact_id\":1,\"write_mode\":{json}}}"
        ));
        match serde_json::from_value::<Option<String>>(value(json)) {
            Ok(text) => assert_eq!(read.unwrap().write_mode, text),
            Err(e) => assert_eq!(refusal(read), e.to_string()),
        }
    }
}

#[test]
fn an_integer_is_read_as_serde_reads_one() {
    for json in VALUES {
        let read =
            read(MergeCompanyAliasParams::decode, &format!("{{\"company_id\":{json},\"new_name\":\"\"}}"));
        match serde_json::from_value::<i64>(value(json)) {
            Ok(n) => assert_eq!(read.unwrap().company_id, n),
            Err(e) => assert_eq!(refusal(read), e.to_string()),
        }
    }
}

#[test]
fn a_flag_is_read_as_serde_reads_one() {
    for json in VALUES {
        let read = read(UpdateCompanyFieldsParams::decode, &format!(
            "{{\"company_id\":1,\"overwrite\":{json}}}"
        ));
        match serde_json::from_value::<bool>(value(json)) {
            Ok(b) => assert_eq!(read.unwrap().overwrite, b),
            Err(e) => assert_eq!(refusal(read), e.to_string()),
        }
    }
}

#[test]
fn a_list_of_integers_is_read_as_serde_reads_one() {
    for json in VALUES.into_iter().chain(["[1,2,3]", "[1,1.5]", "[[1]]", "[9223372036854775808]"]) {
        let read = read(EnqueueEnrichmentParams::decode, &format!("{{\"contact_ids\":{json}}}"));
        match serde_json::from_value::<Vec<i64>>(value(json)) {
            Ok(ns) => assert_eq!(read.unwrap().contact_ids, ns),
            Err(e) => assert_eq!(refusal(read), e.to_string()),
        }
    }
}

#[test]
fn updates_read_back_as_they_were_written() {
    let updates = CompanyFieldUpdates {
        url: Some("https://www.acme.com".to_string()),
        size_range: Some("74000".to_string()),
        description: Some("\"quoted\"\n".to_string()),
        ..CompanyFieldUpdates::default()
    };
    let json = updates.encode();
    assert_eq!(
        json.to_text(),
        r#"{"url":"https://www.acme.com","industry":null,"category":null,"size_range":"74000","description":"\"quoted\"\n","hq_location":null,"stock_symbol":null,"main_phone":null}"#
    );
    let read = CompanyFieldUpdates::decode(&json).unwrap();
    assert_eq!(read.url, updates.url);
    assert_eq!(read.industry, None);
    assert_eq!(read.size_range, updates.size_range);
    assert_eq!(read.description, updates.description);

    let updates = ContactFieldUpdates {
        websites: Some("Company: https://roxe.io".to_string()),
        ..ContactFieldUpdates::default()
    };
    let read = ContactFieldUpdates::decode(&updates.encode()).unwrap();
    assert_eq!(read.websites, updates.websites);
    assert_eq!(read.birthday, None);
}

#[test]
fn a_text_that_is_no_json_is_refused_in_the_words_of_serde_json() {
    for raw in ["", "{", r#"{"name":}"#, "nul", "[1,]", "1 2"] {
        let e = serde_json::from_str::<serde_json::Value>(raw).unwrap_err();
        assert_eq!(refusal(read(CompanyNetworkParams::decode, raw)), e.to_string());
    }
}
