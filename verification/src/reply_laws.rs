//! What the caller of a tool is told, in terms of what the backend replied.

use std::fmt::Display;
use vstd::prelude::*;
use vstd::string::to_string_from_display_ensures;

use crate::json::JsonValue;
use crate::params::{CompanyFieldsWriteResult, ContactFieldsWriteResult};
use crate::render::{
    array_text, array_to_text, bool_text, bool_to_text, escaped, escaped_char, hex_digit,
    item_texts, joined, member_texts, quoted, strings_to_text,
};
use crate::reply::{
    answer, backend_err, json_result, reply_text, succeeds_with, write_result_text, BackendReply,
    ToolError, ToolResult,
};
use crate::text::{decimal, i64_to_text};

verus! {

// ---- Texts ----------------------------------------------------------------------------------

/// How a list grows by an item, between a start and an end.
proof fn lemma_array_grows(start: Seq<char>, items: Seq<Seq<char>>, item: Seq<char>)
    ensures
        start + array_text(Seq::empty()) + "}"@ == start + "[]}"@,
        items.len() == 0 ==> start + array_text(items.push(item)) + "}"@ == start + "["@ + item
            + "]}"@,
        items.len() > 0 ==> ({
            let text = start + array_text(items) + "}"@;
            &&& text.len() > 2
            &&& text.skip(text.len() - 2) == "]}"@
            &&& start + array_text(items.push(item)) + "}"@ == text.take(text.len() - 2) + ","@
                + item + "]}"@
        }),
{
    reveal_strlit("[");
    reveal_strlit("]");
    reveal_strlit("}");
    reveal_strlit("]}");
    reveal_strlit("[]}");
    reveal_strlit(",");
    let more = items.push(item);
    assert(more.drop_last() == items);
    assert(start + array_text(Seq::empty()) + "}"@ == start + "[]}"@);
    if items.len() == 0 {
        assert(joined(more) == item);
        assert(start + array_text(more) + "}"@ == start + "["@ + item + "]}"@);
    } else {
        let text = start + array_text(items) + "}"@;
        assert(joined(more) == joined(items) + ","@ + item);
        assert(text.take(text.len() - 2) == start + "["@ + joined(items));
        assert(text.skip(text.len() - 2) == "]}"@);
        assert(start + array_text(more) + "}"@ == text.take(text.len() - 2) + ","@ + item
            + "]}"@);
    }
}

/// A JSON array has the texts of its items, every one, in order, with commas between them: an empty
/// list is written as brackets, and one item more adds its text before the closing bracket.
pub proof fn law_array_grows_item_by_item(
    items: Vec<String>,
    text: String,
    item: String,
    more: Vec<String>,
    text_of_more: String,
)
    requires
        call_ensures(array_to_text, (&items,), text),
        call_ensures(array_to_text, (&more,), text_of_more),
        more.deep_view() == items.deep_view().push(item@),
    ensures
        items@.len() == 0 ==> text@ == "[]"@ && text_of_more@ == "["@ + item@ + "]"@,
        items@.len() > 0 ==> text@.len() > 1 && text@.last() == ']' && text_of_more@
            == text@.drop_last() + ","@ + item@ + "]"@,
{
    reveal_strlit("[");
    reveal_strlit("]");
    reveal_strlit("[]");
    let views = items.deep_view();
    assert(more.deep_view().drop_last() == views);
    assert(views.len() == items@.len());
    if views.len() == 0 {
        assert(views == Seq::<Seq<char>>::empty());
        assert(text@ == "[]"@);
        assert(text_of_more@ == "["@ + item@ + "]"@);
    } else {
        assert(text@.drop_last() == "["@ + joined(views));
        assert(text_of_more@ == text@.drop_last() + ","@ + item@ + "]"@);
    }
}

/// A JSON array of strings has each string quoted, every one, in order.
pub proof fn law_array_of_strings_has_each_quoted(
    strings: Vec<&'static str>,
    text: String,
    quotes: Vec<String>,
    text_of_quotes: String,
)
    requires
        call_ensures(strings_to_text, (&strings,), text),
        quotes@.len() == strings@.len(),
        forall|i: int, s: String|
            #![trigger quotes@[i], s@]
            0 <= i < strings@.len() && s@ == strings@[i]@ ==> call_ensures(
                JsonValue::to_text,
                (&JsonValue::Text(s),),
                quotes@[i],
            ),
        forall|i: int|
            0 <= i < strings@.len() ==> exists|s: String|
                #![trigger s@]
                s@ == (#[trigger] strings@[i])@,
        call_ensures(array_to_text, (&quotes,), text_of_quotes),
    ensures
        text@ == text_of_quotes@,
{
    let expected = strings.deep_view().map_values(|s: Seq<char>| quoted(s));
    assert forall|i: int| 0 <= i < strings@.len() implies quotes.deep_view()[i] == expected[i] by {
        let s = choose|s: String|
            #![trigger s@]
            s@ == strings@[i]@;
        assert(call_ensures(JsonValue::to_text, (&JsonValue::Text(s),), quotes@[i]));
        assert(quotes.deep_view()[i] == quotes@[i]@);
    }
    assert(quotes.deep_view() == expected);
}

/// A truth value is written as the word for it.
pub proof fn law_truth_value_is_its_word(b: bool, text: String)
    requires
        call_ensures(bool_to_text, (b,), text),
    ensures
        b ==> text@ == "true"@,
        !b ==> text@ == "false"@,
{
}

/// A JSON string has its characters, every one, in order, between quotation marks: one character
/// more adds what stands for it before the closing mark. A quotation mark and a backslash have a
/// backslash before them, the characters below space have their escapes, and every other character
/// stands for itself.
pub proof fn law_string_is_quoted_character_by_character(
    s: String,
    text: String,
    c: char,
    more: String,
    text_of_more: String,
) -> (added: Seq<char>)
    requires
        call_ensures(JsonValue::to_text, (&JsonValue::Text(s),), text),
        call_ensures(JsonValue::to_text, (&JsonValue::Text(more),), text_of_more),
        more@ == s@.push(c),
    ensures
        text_of_more@ == text@.drop_last() + added + seq!['"'],
        s@.len() == 0 ==> text@ == seq!['"', '"'],
        text@.len() > 1 && text@[0] == '"' && text@.last() == '"',
        c == '"' || c == '\\' ==> added == seq!['\\', c],
        c as u32 == 8 ==> added == seq!['\\', 'b'],
        c == '\t' ==> added == seq!['\\', 't'],
        c == '\n' ==> added == seq!['\\', 'n'],
        c as u32 == 12 ==> added == seq!['\\', 'f'],
        c == '\r' ==> added == seq!['\\', 'r'],
        (c as u32) < 32 ==> added.len() == 2 || added == seq![
            '\\',
            'u',
            '0',
            '0',
            if (c as u32) < 16 {
                '0'
            } else {
                '1'
            },
            if c as u32 % 16 < 10 {
                (48 + c as u32 % 16) as char
            } else {
                (87 + c as u32 % 16) as char
            },
        ],
        32 <= c as u32 && c != '"' && c != '\\' ==> added == seq![c],
{
    lemma_quoted_grows(s@, c);
    assert(hex_digit(0) == '0');
    assert(hex_digit(1) == '1');
    if s@.len() == 0 {
        assert(escaped(s@) == Seq::<char>::empty());
        assert(text@ == seq!['"', '"']);
    }
    escaped_char(c)
}

/// One character more in a JSON string.
pub proof fn lemma_quoted_grows(s: Seq<char>, c: char)
    ensures
        quoted(s).len() > 1,
        quoted(s)[0] == '"',
        quoted(s).last() == '"',
        quoted(s.push(c)) == quoted(s).drop_last() + escaped_char(c) + seq!['"'],
{
    assert(s.push(c).drop_last() == s);
    assert(quoted(s).drop_last() == seq!['"'] + escaped(s));
    assert(quoted(s.push(c)) == quoted(s).drop_last() + escaped_char(c)
        + seq!['"']);
}

/// A JSON value that is neither a string nor holds others is written as its word or its digits.
pub proof fn law_simple_value_is_its_text(value: JsonValue, text: String)
    requires
        call_ensures(JsonValue::to_text, (&value,), text),
    ensures
        value is Null ==> text@ == "null"@,
        value matches JsonValue::Bool(b) ==> text@ == if b {
            "true"@
        } else {
            "false"@
        },
        value matches JsonValue::Number(n) ==> text@ == n.text@,
{
}

/// A JSON array is written as the array of its items' texts.
pub proof fn law_array_is_written_item_by_item(
    items: Vec<JsonValue>,
    text: String,
    texts: Vec<String>,
    text_of_texts: String,
)
    requires
        call_ensures(JsonValue::to_text, (&JsonValue::Array(items),), text),
        texts@.len() == items@.len(),
        forall|i: int|
            0 <= i < items@.len() ==> call_ensures(
                JsonValue::to_text,
                (&items@[i],),
                #[trigger] texts@[i],
            ),
        call_ensures(array_to_text, (&texts,), text_of_texts),
    ensures
        text@ == text_of_texts@,
{
    let views = JsonValue::Array(items)@->Array_0;
    assert forall|i: int| 0 <= i < items@.len() implies texts.deep_view()[i] == item_texts(
        views,
    )[i] by {
        assert(call_ensures(JsonValue::to_text, (&items@[i],), texts@[i]));
        assert(views[i] == items@[i]@);
    }
    assert(texts.deep_view() == item_texts(views));
}

/// A JSON object is written with each member's key, a colon and its value's text, every one, in
/// order, with commas between them.
pub proof fn law_object_is_written_member_by_member(
    members: Vec<(String, JsonValue)>,
    text: String,
    keys: Vec<String>,
    values: Vec<String>,
    pairs: Vec<String>,
    text_of_pairs: String,
)
    requires
        call_ensures(JsonValue::to_text, (&JsonValue::Object(members),), text),
        keys@.len() == members@.len(),
        values@.len() == members@.len(),
        pairs@.len() == members@.len(),
        forall|i: int|
            0 <= i < members@.len() ==> call_ensures(
                JsonValue::to_text,
                (&JsonValue::Text(members@[i].0),),
                #[trigger] keys@[i],
            ),
        forall|i: int|
            0 <= i < members@.len() ==> call_ensures(
                JsonValue::to_text,
                (&members@[i].1,),
                #[trigger] values@[i],
            ),
        forall|i: int|
            0 <= i < members@.len() ==> (#[trigger] pairs@[i])@ == keys@[i]@ + ":"@ + values@[i]@,
        call_ensures(array_to_text, (&pairs,), text_of_pairs),
    ensures
        text@.len() == text_of_pairs@.len() >= 2,
        text@.subrange(1, text@.len() - 1) == text_of_pairs@.subrange(1, text@.len() - 1),
        text@[0] == '{' && text@.last() == '}',
{
    reveal_strlit("[");
    reveal_strlit("]");
    reveal_strlit("{");
    reveal_strlit("}");
    let views = JsonValue::Object(members)@->Object_0;
    let expected = member_texts(views).map_values(
        |m: (Seq<char>, Seq<char>)| quoted(m.0) + ":"@ + m.1,
    );
    assert forall|i: int| 0 <= i < members@.len() implies pairs.deep_view()[i] == expected[i] by {
        assert(call_ensures(JsonValue::to_text, (&JsonValue::Text(members@[i].0),), keys@[i]));
        assert(call_ensures(JsonValue::to_text, (&members@[i].1,), values@[i]));
        assert(views[i] == (members@[i].0@, members@[i].1@));
        assert(pairs@[i]@ == keys@[i]@ + ":"@ + values@[i]@);
    }
    assert(pairs.deep_view() == expected);
    let inner = joined(expected);
    assert(text@ == "{"@ + inner + "}"@);
    assert(text_of_pairs@ == "["@ + inner + "]"@);
    assert(text@.subrange(1, text@.len() - 1) == inner);
    assert(text_of_pairs@.subrange(1, text@.len() - 1) == inner);
}

// ---- Errors and results ----------------------------------------------------------------------

/// What a success with a text holds.
proof fn lemma_told(result: ToolResult, text: Seq<char>)
    requires
        succeeds_with(result, text),
    ensures
        result.is_error == Some(false),
        result.content@.len() == 1,
        result.content@[0] is Some,
        result.content@[0]->Some_0@ == text,
{
    assert(result.content.deep_view().len() == 1);
    assert(result.content.deep_view()[0] == result.content@[0].deep_view());
}

/// A text is told as it is: as the one content block of a result that is no error.
pub proof fn law_text_is_told_as_it_is(text: String, r: ToolResult)
    requires
        call_ensures(json_result, (text,), r),
    ensures
        r.is_error == Some(false),
        r.content@.len() == 1,
        r.content@[0] matches Some(told) && told@ == text@,
{
    lemma_told(r, text@);
}

/// A backend's error is surfaced with what it displays, all of it and nothing else, under the code
/// for an internal error.
pub proof fn law_error_is_surfaced_with_what_it_displays<E: Display>(e: E, r: ToolError)
    requires
        call_ensures(backend_err::<E>, (e,), r),
    ensures
        r.code == -32603,
        r.data is None,
        exists|text: String|
            #[trigger] to_string_from_display_ensures::<E>(&e, text) && r.message@ == text@,
{
}

/// Whichever operation fails, the caller gets the backend's error with what it displays, never a
/// success.
pub proof fn law_failure_of_any_operation_is_surfaced<E: Display>(
    e: E,
    path: String,
    reply: BackendReply<E>,
    r: Result<ToolResult, ToolError>,
)
    requires
        call_ensures(answer::<E>, (reply,), r),
        reply == BackendReply::SearchContacts(Err(e)) || reply == BackendReply::<E>::Stats(Err(e))
            || reply == BackendReply::CompanyNetwork(Err(e)) || reply
            == BackendReply::UpdateContactField(Err(e)) || reply
            == BackendReply::MergeCompanyAlias(Err(e)) || reply
            == BackendReply::EnqueueEnrichment(Err(e)) || reply
            == BackendReply::UpdateCompanyFields(Err(e)) || reply
            == BackendReply::ListCompaniesNeedingEnrichment(Err(e)) || reply
            == BackendReply::UpdateContactFields(Err(e)) || reply
            == BackendReply::ListContactsNeedingEnrichment(Err(e)) || reply
            == BackendReply::BackupVault(path, Err(e)),
    ensures
        r matches Err(error) && {
            &&& error.code == -32603
            &&& error.data is None
            &&& exists|text: String|
                #[trigger] to_string_from_display_ensures::<E>(&e, text) && error.message@ == text@
        },
{
}

// ---- Each reply, whole ------------------------------------------------------------------------

/// A page of contacts is told with the backend's total, digit for digit, and the array of all the
/// contacts that the backend returned.
pub proof fn law_page_is_told_whole<E: Display>(
    total: i64,
    results: Vec<String>,
    number: String,
    array: String,
    reply: BackendReply<E>,
    r: Result<ToolResult, ToolError>,
)
    requires
        reply == BackendReply::<E>::SearchContacts(Ok((total, results))),
        call_ensures(answer::<E>, (reply,), r),
        call_ensures(i64_to_text, (total,), number),
        call_ensures(array_to_text, (&results,), array),
    ensures
        r matches Ok(told) && {
            &&& told.is_error == Some(false)
            &&& told.content@.len() == 1
            &&& told.content@[0] matches Some(text) && text@ == "{\"total_matches\":"@ + number@
                + ",\"results\":"@ + array@ + "}"@
        },
{
    lemma_told(r->Ok_0, reply_text(reply));
}

/// A company's network is told with whether it was found, the company or `null`, and the array of
/// all the contacts that the backend returned.
pub proof fn law_network_is_told_whole<E: Display>(
    found: bool,
    company: Option<String>,
    contacts: Vec<String>,
    word: String,
    array: String,
    reply: BackendReply<E>,
    r: Result<ToolResult, ToolError>,
)
    requires
        reply == BackendReply::<E>::CompanyNetwork(Ok((found, company, contacts))),
        call_ensures(answer::<E>, (reply,), r),
        call_ensures(bool_to_text, (found,), word),
        call_ensures(array_to_text, (&contacts,), array),
    ensures
        r matches Ok(told) && {
            &&& told.is_error == Some(false)
            &&& told.content@.len() == 1
            &&& told.content@[0] matches Some(text) && text@ == "{\"found\":"@ + word@
                + ",\"company\":"@ + (match company {
                Some(c) => c@,
                None => "null"@,
            }) + ",\"contacts\":"@ + array@ + "}"@
        },
{
    lemma_told(r->Ok_0, reply_text(reply));
}

/// Counts are told as the backend wrote them.
pub proof fn law_stats_are_handed_on<E: Display>(
    record: String,
    reply: BackendReply<E>,
    r: Result<ToolResult, ToolError>,
)
    requires
        reply == BackendReply::<E>::Stats(Ok(record)),
        call_ensures(answer::<E>, (reply,), r),
    ensures
        r matches Ok(told) && {
            &&& told.is_error == Some(false)
            &&& told.content@.len() == 1
            &&& told.content@[0] matches Some(text) && text@ == record@
        },
{
    lemma_told(r->Ok_0, reply_text(reply));
}

/// An updated contact is told as the backend wrote it.
pub proof fn law_updated_contact_is_handed_on<E: Display>(
    record: String,
    reply: BackendReply<E>,
    r: Result<ToolResult, ToolError>,
)
    requires
        reply == BackendReply::<E>::UpdateContactField(Ok(record)),
        call_ensures(answer::<E>, (reply,), r),
    ensures
        r matches Ok(told) && {
            &&& told.is_error == Some(false)
            &&& told.content@.len() == 1
            &&& told.content@[0] matches Some(text) && text@ == record@
        },
{
    lemma_told(r->Ok_0, reply_text(reply));
}

/// A renamed or merged company is told as the backend wrote it.
pub proof fn law_merged_company_is_handed_on<E: Display>(
    record: String,
    reply: BackendReply<E>,
    r: Result<ToolResult, ToolError>,
)
    requires
        reply == BackendReply::<E>::MergeCompanyAlias(Ok(record)),
        call_ensures(answer::<E>, (reply,), r),
    ensures
        r matches Ok(told) && {
            &&& told.is_error == Some(false)
            &&& told.content@.len() == 1
            &&& told.content@[0] matches Some(text) && text@ == record@
        },
{
    lemma_told(r->Ok_0, reply_text(reply));
}

/// How many contacts were queued is told digit for digit.
pub proof fn law_queued_count_is_told<E: Display>(
    queued: i64,
    number: String,
    reply: BackendReply<E>,
    r: Result<ToolResult, ToolError>,
)
    requires
        reply == BackendReply::<E>::EnqueueEnrichment(Ok(queued)),
        call_ensures(answer::<E>, (reply,), r),
        call_ensures(i64_to_text, (queued,), number),
    ensures
        r matches Ok(told) && {
            &&& told.is_error == Some(false)
            &&& told.content@.len() == 1
            &&& told.content@[0] matches Some(text) && text@ == "{\"queued\":"@ + number@ + "}"@
        },
{
    lemma_told(r->Ok_0, reply_text(reply));
}

/// What was written to a company and what was skipped are told whole: the company, then the array
/// of all the names written, then the array of all the names skipped, each list whatever the other
/// is.
pub proof fn law_company_update_is_told_whole<E: Display>(
    report: CompanyFieldsWriteResult<String>,
    written: String,
    skipped: String,
    reply: BackendReply<E>,
    r: Result<ToolResult, ToolError>,
)
    requires
        reply == BackendReply::<E>::UpdateCompanyFields(Ok(report)),
        call_ensures(answer::<E>, (reply,), r),
        call_ensures(strings_to_text, (&report.fields_written,), written),
        call_ensures(strings_to_text, (&report.fields_skipped_already_set,), skipped),
    ensures
        r matches Ok(told) && {
            &&& told.is_error == Some(false)
            &&& told.content@.len() == 1
            &&& told.content@[0] matches Some(text) && text@ == "{\"company\":"@ + report.company@
                + ",\"fields_written\":"@ + written@ + ",\"fields_skipped_already_set\":"@
                    + skipped@
                + "}"@
        },
{
    lemma_told(r->Ok_0, reply_text(reply));
}

/// What was written to a contact and what was skipped are told whole: the contact, then the array
/// of all the names written, then the array of all the names skipped, each list whatever the other
/// is.
pub proof fn law_contact_update_is_told_whole<E: Display>(
    report: ContactFieldsWriteResult<String>,
    written: String,
    skipped: String,
    reply: BackendReply<E>,
    r: Result<ToolResult, ToolError>,
)
    requires
        reply == BackendReply::<E>::UpdateContactFields(Ok(report)),
        call_ensures(answer::<E>, (reply,), r),
        call_ensures(strings_to_text, (&report.fields_written,), written),
        call_ensures(strings_to_text, (&report.fields_skipped_already_set,), skipped),
    ensures
        r matches Ok(told) && {
            &&& told.is_error == Some(false)
            &&& told.content@.len() == 1
            &&& told.content@[0] matches Some(text) && text@ == "{\"contact\":"@ + report.contact@
                + ",\"fields_written\":"@ + written@ + ",\"fields_skipped_already_set\":"@
                    + skipped@
                + "}"@
        },
{
    lemma_told(r->Ok_0, reply_text(reply));
}

/// A listing of companies is told with all the companies that the backend returned.
pub proof fn law_listing_of_companies_is_told_whole<E: Display>(
    records: Vec<String>,
    array: String,
    reply: BackendReply<E>,
    r: Result<ToolResult, ToolError>,
)
    requires
        reply == BackendReply::<E>::ListCompaniesNeedingEnrichment(Ok(records)),
        call_ensures(answer::<E>, (reply,), r),
        call_ensures(array_to_text, (&records,), array),
    ensures
        r matches Ok(told) && {
            &&& told.is_error == Some(false)
            &&& told.content@.len() == 1
            &&& told.content@[0] matches Some(text) && text@ == "{\"companies\":"@ + array@ + "}"@
        },
{
    lemma_told(r->Ok_0, reply_text(reply));
}

/// A listing of contacts is told with all the contacts that the backend returned.
pub proof fn law_listing_of_contacts_is_told_whole<E: Display>(
    records: Vec<String>,
    array: String,
    reply: BackendReply<E>,
    r: Result<ToolResult, ToolError>,
)
    requires
        reply == BackendReply::<E>::ListContactsNeedingEnrichment(Ok(records)),
        call_ensures(answer::<E>, (reply,), r),
        call_ensures(array_to_text, (&records,), array),
    ensures
        r matches Ok(told) && {
            &&& told.is_error == Some(false)
            &&& told.content@.len() == 1
            &&& told.content@[0] matches Some(text) && text@ == "{\"contacts\":"@ + array@ + "}"@
        },
{
    lemma_told(r->Ok_0, reply_text(reply));
}

/// A backup is told with the path that it went to, all of it, as a JSON string.
pub proof fn law_backup_is_told_with_its_whole_path<E: Display>(
    path: String,
    done: (),
    quote: String,
    reply: BackendReply<E>,
    r: Result<ToolResult, ToolError>,
)
    requires
        reply == BackendReply::<E>::BackupVault(path, Ok(done)),
        call_ensures(answer::<E>, (reply,), r),
        call_ensures(JsonValue::to_text, (&JsonValue::Text(path),), quote),
    ensures
        r matches Ok(told) && {
            &&& told.is_error == Some(false)
            &&& told.content@.len() == 1
            &&& told.content@[0] matches Some(text) && text@ == "{\"backed_up_to\":"@ + quote@
                + "}"@
        },
{
    lemma_told(r->Ok_0, reply_text(reply));
}

// ---- How the replies grow ---------------------------------------------------------------------

/// A page with one contact more is told with that contact's text after the others, and nothing else
/// is told otherwise.
pub proof fn law_page_grows_contact_by_contact<E: Display>(
    total: i64,
    results: Vec<String>,
    contact: String,
    more: Vec<String>,
    reply: BackendReply<E>,
    reply_of_more: BackendReply<E>,
    r: Result<ToolResult, ToolError>,
    r_of_more: Result<ToolResult, ToolError>,
)
    requires
        reply == BackendReply::<E>::SearchContacts(Ok((total, results))),
        reply_of_more == BackendReply::<E>::SearchContacts(Ok((total, more))),
        call_ensures(answer::<E>, (reply,), r),
        call_ensures(answer::<E>, (reply_of_more,), r_of_more),
        more.deep_view() == results.deep_view().push(contact@),
    ensures
        r matches Ok(told) && {
            &&& r_of_more matches Ok(more_told)
            &&& told.content@.len() == 1
            &&& more_told.content@.len() == 1
            &&& told.content@[0] matches Some(text)
            &&& more_told.content@[0] matches Some(text_of_more)
            &&& results@.len() > 0 ==> text@.len() > 2 && text@.skip(text@.len() - 2) == "]}"@
                && text_of_more@ == text@.take(text@.len() - 2) + ","@ + contact@ + "]}"@
            &&& results@.len() == 0 ==> text@.len() > 3 && text@.skip(text@.len() - 3) == "[]}"@
                && text_of_more@ == text@.take(text@.len() - 3) + "["@ + contact@ + "]}"@
        },
{
    reveal_strlit("[]}");
    reveal_strlit("{\"total_matches\":");
    let start: Seq<char> = "{\"total_matches\":"@ + decimal(total as int) + ",\"results\":"@;
    let items = results.deep_view();
    lemma_told(r->Ok_0, reply_text(reply));
    lemma_told(r_of_more->Ok_0, reply_text(reply_of_more));
    lemma_array_grows(start, items, contact@);
    assert(more.deep_view() == items.push(contact@));
    if results@.len() == 0 {
        assert(items == Seq::<Seq<char>>::empty());
        let text = start + "[]}"@;
        assert(text.skip(text.len() - 3) == "[]}"@);
        assert(text.take(text.len() - 3) == start);
    }
}

/// A network with one contact more is told with that contact's text after the others, and nothing
/// else is told otherwise.
pub proof fn law_network_grows_contact_by_contact<E: Display>(
    found: bool,
    company: Option<String>,
    contacts: Vec<String>,
    contact: String,
    more: Vec<String>,
    reply: BackendReply<E>,
    reply_of_more: BackendReply<E>,
    r: Result<ToolResult, ToolError>,
    r_of_more: Result<ToolResult, ToolError>,
)
    requires
        reply == BackendReply::<E>::CompanyNetwork(Ok((found, company, contacts))),
        reply_of_more == BackendReply::<E>::CompanyNetwork(Ok((found, company, more))),
        call_ensures(answer::<E>, (reply,), r),
        call_ensures(answer::<E>, (reply_of_more,), r_of_more),
        more.deep_view() == contacts.deep_view().push(contact@),
    ensures
        r matches Ok(told) && {
            &&& r_of_more matches Ok(more_told)
            &&& told.content@.len() == 1
            &&& more_told.content@.len() == 1
            &&& told.content@[0] matches Some(text)
            &&& more_told.content@[0] matches Some(text_of_more)
            &&& contacts@.len() > 0 ==> text@.len() > 2 && text@.skip(text@.len() - 2) == "]}"@
                && text_of_more@ == text@.take(text@.len() - 2) + ","@ + contact@ + "]}"@
            &&& contacts@.len() == 0 ==> text@.len() > 3 && text@.skip(text@.len() - 3) == "[]}"@
                && text_of_more@ == text@.take(text@.len() - 3) + "["@ + contact@ + "]}"@
        },
{
    reveal_strlit("[]}");
    reveal_strlit("{\"found\":");
    let start: Seq<char> = "{\"found\":"@ + bool_text(found) + ",\"company\":"@ + (match company {
        Some(c) => c@,
        None => "null"@,
    }) + ",\"contacts\":"@;
    let items = contacts.deep_view();
    lemma_told(r->Ok_0, reply_text(reply));
    lemma_told(r_of_more->Ok_0, reply_text(reply_of_more));
    lemma_array_grows(start, items, contact@);
    assert(more.deep_view() == items.push(contact@));
    if contacts@.len() == 0 {
        assert(items == Seq::<Seq<char>>::empty());
        let text = start + "[]}"@;
        assert(text.skip(text.len() - 3) == "[]}"@);
        assert(text.take(text.len() - 3) == start);
    }
}

/// A listing with one company more is told with its text after the others, and nothing else is told
/// otherwise.
pub proof fn law_listing_of_companies_grows_company_by_company<E: Display>(
    records: Vec<String>,
    record: String,
    more: Vec<String>,
    reply: BackendReply<E>,
    reply_of_more: BackendReply<E>,
    r: Result<ToolResult, ToolError>,
    r_of_more: Result<ToolResult, ToolError>,
)
    requires
        reply == BackendReply::<E>::ListCompaniesNeedingEnrichment(Ok(records)),
        reply_of_more == BackendReply::<E>::ListCompaniesNeedingEnrichment(Ok(more)),
        call_ensures(answer::<E>, (reply,), r),
        call_ensures(answer::<E>, (reply_of_more,), r_of_more),
        more.deep_view() == records.deep_view().push(record@),
    ensures
        r matches Ok(told) && {
            &&& r_of_more matches Ok(more_told)
            &&& told.content@.len() == 1
            &&& more_told.content@.len() == 1
            &&& told.content@[0] matches Some(text)
            &&& more_told.content@[0] matches Some(text_of_more)
            &&& records@.len() > 0 ==> text@.len() > 2 && text@.skip(text@.len() - 2) == "]}"@
                && text_of_more@ == text@.take(text@.len() - 2) + ","@ + record@ + "]}"@
            &&& records@.len() == 0 ==> text@.len() > 3 && text@.skip(text@.len() - 3) == "[]}"@
                && text_of_more@ == text@.take(text@.len() - 3) + "["@ + record@ + "]}"@
        },
{
    reveal_strlit("[]}");
    reveal_strlit("{\"companies\":");
    let start: Seq<char> = "{\"companies\":"@;
    let items = records.deep_view();
    lemma_told(r->Ok_0, reply_text(reply));
    lemma_told(r_of_more->Ok_0, reply_text(reply_of_more));
    lemma_array_grows(start, items, record@);
    assert(more.deep_view() == items.push(record@));
    if records@.len() == 0 {
        assert(items == Seq::<Seq<char>>::empty());
        let text = start + "[]}"@;
        assert(text.skip(text.len() - 3) == "[]}"@);
        assert(text.take(text.len() - 3) == start);
    }
}

/// A listing with one contact more is told with its text after the others, and nothing else is told
/// otherwise.
pub proof fn law_listing_of_contacts_grows_contact_by_contact<E: Display>(
    records: Vec<String>,
    record: String,
    more: Vec<String>,
    reply: BackendReply<E>,
    reply_of_more: BackendReply<E>,
    r: Result<ToolResult, ToolError>,
    r_of_more: Result<ToolResult, ToolError>,
)
    requires
        reply == BackendReply::<E>::ListContactsNeedingEnrichment(Ok(records)),
        reply_of_more == BackendReply::<E>::ListContactsNeedingEnrichment(Ok(more)),
        call_ensures(answer::<E>, (reply,), r),
        call_ensures(answer::<E>, (reply_of_more,), r_of_more),
        more.deep_view() == records.deep_view().push(record@),
    ensures
        r matches Ok(told) && {
            &&& r_of_more matches Ok(more_told)
            &&& told.content@.len() == 1
            &&& more_told.content@.len() == 1
            &&& told.content@[0] matches Some(text)
            &&& more_told.content@[0] matches Some(text_of_more)
            &&& records@.len() > 0 ==> text@.len() > 2 && text@.skip(text@.len() - 2) == "]}"@
                && text_of_more@ == text@.take(text@.len() - 2) + ","@ + record@ + "]}"@
            &&& records@.len() == 0 ==> text@.len() > 3 && text@.skip(text@.len() - 3) == "[]}"@
                && text_of_more@ == text@.take(text@.len() - 3) + "["@ + record@ + "]}"@
        },
{
    reveal_strlit("[]}");
    reveal_strlit("{\"contacts\":");
    let start: Seq<char> = "{\"contacts\":"@;
    let items = records.deep_view();
    lemma_told(r->Ok_0, reply_text(reply));
    lemma_told(r_of_more->Ok_0, reply_text(reply_of_more));
    lemma_array_grows(start, items, record@);
    assert(more.deep_view() == items.push(record@));
    if records@.len() == 0 {
        assert(items == Seq::<Seq<char>>::empty());
        let text = start + "[]}"@;
        assert(text.skip(text.len() - 3) == "[]}"@);
        assert(text.take(text.len() - 3) == start);
    }
}

/// An update of a company with one name more among those skipped is told with that name, quoted,
/// after the other names skipped, whatever was written.
pub proof fn law_company_update_tells_each_name_skipped<E: Display>(
    report: CompanyFieldsWriteResult<String>,
    name: &'static str,
    quote: String,
    owned: String,
    more: CompanyFieldsWriteResult<String>,
    reply: BackendReply<E>,
    reply_of_more: BackendReply<E>,
    r: Result<ToolResult, ToolError>,
    r_of_more: Result<ToolResult, ToolError>,
)
    requires
        reply == BackendReply::<E>::UpdateCompanyFields(Ok(report)),
        reply_of_more == BackendReply::<E>::UpdateCompanyFields(Ok(more)),
        call_ensures(answer::<E>, (reply,), r),
        call_ensures(answer::<E>, (reply_of_more,), r_of_more),
        more.company == report.company,
        more.fields_written == report.fields_written,
        more.fields_skipped_already_set@ == report.fields_skipped_already_set@.push(name),
        owned@ == name@,
        call_ensures(JsonValue::to_text, (&JsonValue::Text(owned),), quote),
    ensures
        r matches Ok(told) && {
            &&& r_of_more matches Ok(more_told)
            &&& told.content@.len() == 1
            &&& more_told.content@.len() == 1
            &&& told.content@[0] matches Some(text)
            &&& more_told.content@[0] matches Some(text_of_more)
            &&& report.fields_skipped_already_set@.len() > 0 ==> text@.len() > 2 && text@.skip(
                text@.len() - 2,
            ) == "]}"@ && text_of_more@ == text@.take(text@.len() - 2) + ","@ + quote@ + "]}"@
            &&& report.fields_skipped_already_set@.len() == 0 ==> text@.len() > 3 && text@.skip(
                text@.len() - 3,
            ) == "[]}"@ && text_of_more@ == text@.take(text@.len() - 3) + "["@ + quote@ + "]}"@
        },
{
    reveal_strlit("[]}");
    reveal_strlit("{\"company\":");
    let start = "{\"company\":"@ + report.company@ + ",\"fields_written\":"@ + array_text(
        report.fields_written.deep_view().map_values(|s: Seq<char>| quoted(s)),
    ) + ",\"fields_skipped_already_set\":"@;
    let names = report.fields_skipped_already_set.deep_view();
    let more_names = more.fields_skipped_already_set.deep_view();
    let items = names.map_values(|s: Seq<char>| quoted(s));
    lemma_told(r->Ok_0, reply_text(reply));
    lemma_told(r_of_more->Ok_0, reply_text(reply_of_more));
    lemma_array_grows(start, items, quote@);
    assert(more_names == names.push(name@));
    assert(more_names.map_values(|s: Seq<char>| quoted(s)) == items.push(quote@));
    assert(write_result_text(
        "{\"company\":"@,
        report.company@,
        report.fields_written.deep_view(),
        names,
    ) == start + array_text(items) + "}"@);
    if report.fields_skipped_already_set@.len() == 0 {
        assert(items == Seq::<Seq<char>>::empty());
        let text = start + "[]}"@;
        assert(text.skip(text.len() - 3) == "[]}"@);
        assert(text.take(text.len() - 3) == start);
    }
}

/// An update of a company that skipped nothing, with one name more among those written, is told
/// with that name, quoted, after the other names written.
pub proof fn law_company_update_tells_each_name_written<E: Display>(
    report: CompanyFieldsWriteResult<String>,
    name: &'static str,
    quote: String,
    owned: String,
    more: CompanyFieldsWriteResult<String>,
    reply: BackendReply<E>,
    reply_of_more: BackendReply<E>,
    r: Result<ToolResult, ToolError>,
    r_of_more: Result<ToolResult, ToolError>,
    end: Seq<char>,
)
    requires
        reply == BackendReply::<E>::UpdateCompanyFields(Ok(report)),
        reply_of_more == BackendReply::<E>::UpdateCompanyFields(Ok(more)),
        call_ensures(answer::<E>, (reply,), r),
        call_ensures(answer::<E>, (reply_of_more,), r_of_more),
        more.company == report.company,
        more.fields_skipped_already_set == report.fields_skipped_already_set,
        report.fields_skipped_already_set@.len() == 0,
        more.fields_written@ == report.fields_written@.push(name),
        owned@ == name@,
        call_ensures(JsonValue::to_text, (&JsonValue::Text(owned),), quote),
        end == "],\"fields_skipped_already_set\":[]}"@,
    ensures
        r matches Ok(told) && {
            &&& r_of_more matches Ok(more_told)
            &&& told.content@.len() == 1
            &&& more_told.content@.len() == 1
            &&& told.content@[0] matches Some(text)
            &&& more_told.content@[0] matches Some(text_of_more)
            &&& text@.len() > end.len() && text@.skip(text@.len() - end.len()) == end
            &&& report.fields_written@.len() > 0 ==> text_of_more@ == text@.take(
                text@.len() - end.len(),
            ) + ","@ + quote@ + end
            &&& report.fields_written@.len() == 0 ==> text@ == "{\"company\":"@ + report.company@
                + ",\"fields_written\":["@ + end && text_of_more@ == text@.take(
                text@.len() - end.len(),
            ) + quote@ + end
        },
{
    reveal_strlit("[");
    reveal_strlit("]");
    reveal_strlit("}");
    reveal_strlit(",\"fields_written\":");
    reveal_strlit(",\"fields_written\":[");
    reveal_strlit(",\"fields_skipped_already_set\":");
    reveal_strlit("],\"fields_skipped_already_set\":[]}");
    let start = "{\"company\":"@ + report.company@ + ",\"fields_written\":["@;
    let names = report.fields_written.deep_view();
    let more_names = more.fields_written.deep_view();
    let items = names.map_values(|s: Seq<char>| quoted(s));
    let more_items = more_names.map_values(|s: Seq<char>| quoted(s));
    lemma_told(r->Ok_0, reply_text(reply));
    lemma_told(r_of_more->Ok_0, reply_text(reply_of_more));
    assert(more_names == names.push(name@));
    assert(more_items == items.push(quote@));
    assert(more_items.drop_last() == items);
    let none = report.fields_skipped_already_set.deep_view().map_values(
        |s: Seq<char>| quoted(s),
    );
    assert(none == Seq::<Seq<char>>::empty());
    assert(joined(none) == Seq::<char>::empty());
    let text = r->Ok_0.content@[0]->Some_0@;
    let text_of_more = r_of_more->Ok_0.content@[0]->Some_0@;
    assert(text == start + joined(items) + end);
    assert(text_of_more == start + joined(more_items) + end);
    assert(text.skip(text.len() - end.len()) == end);
    assert(text.take(text.len() - end.len()) == start + joined(items));
    if items.len() == 0 {
        assert(joined(items) == Seq::<char>::empty());
        assert(joined(more_items) == quote@);
        assert(text == start + end);
    }
    assert(start.len() > 0);
}

/// An update of a contact with one name more among those skipped is told with that name, quoted,
/// after the other names skipped, whatever was written.
pub proof fn law_contact_update_tells_each_name_skipped<E: Display>(
    report: ContactFieldsWriteResult<String>,
    name: &'static str,
    quote: String,
    owned: String,
    more: ContactFieldsWriteResult<String>,
    reply: BackendReply<E>,
    reply_of_more: BackendReply<E>,
    r: Result<ToolResult, ToolError>,
    r_of_more: Result<ToolResult, ToolError>,
)
    requires
        reply == BackendReply::<E>::UpdateContactFields(Ok(report)),
        reply_of_more == BackendReply::<E>::UpdateContactFields(Ok(more)),
        call_ensures(answer::<E>, (reply,), r),
        call_ensures(answer::<E>, (reply_of_more,), r_of_more),
        more.contact == report.contact,
        more.fields_written == report.fields_written,
        more.fields_skipped_already_set@ == report.fields_skipped_already_set@.push(name),
        owned@ == name@,
        call_ensures(JsonValue::to_text, (&JsonValue::Text(owned),), quote),
    ensures
        r matches Ok(told) && {
            &&& r_of_more matches Ok(more_told)
            &&& told.content@.len() == 1
            &&& more_told.content@.len() == 1
            &&& told.content@[0] matches Some(text)
            &&& more_told.content@[0] matches Some(text_of_more)
            &&& report.fields_skipped_already_set@.len() > 0 ==> text@.len() > 2 && text@.skip(
                text@.len() - 2,
            ) == "]}"@ && text_of_more@ == text@.take(text@.len() - 2) + ","@ + quote@ + "]}"@
            &&& report.fields_skipped_already_set@.len() == 0 ==> text@.len() > 3 && text@.skip(
                text@.len() - 3,
            ) == "[]}"@ && text_of_more@ == text@.take(text@.len() - 3) + "["@ + quote@ + "]}"@
        },
{
    reveal_strlit("[]}");
    reveal_strlit("{\"contact\":");
    let start = "{\"contact\":"@ + report.contact@ + ",\"fields_written\":"@ + array_text(
        report.fields_written.deep_view().map_values(|s: Seq<char>| quoted(s)),
    ) + ",\"fields_skipped_already_set\":"@;
    let names = report.fields_skipped_already_set.deep_view();
    let more_names = more.fields_skipped_already_set.deep_view();
    let items = names.map_values(|s: Seq<char>| quoted(s));
    lemma_told(r->Ok_0, reply_text(reply));
    lemma_told(r_of_more->Ok_0, reply_text(reply_of_more));
    lemma_array_grows(start, items, quote@);
    assert(more_names == names.push(name@));
    assert(more_names.map_values(|s: Seq<char>| quoted(s)) == items.push(quote@));
    assert(write_result_text(
        "{\"contact\":"@,
        report.contact@,
        report.fields_written.deep_view(),
        names,
    ) == start + array_text(items) + "}"@);
    if report.fields_skipped_already_set@.len() == 0 {
        assert(items == Seq::<Seq<char>>::empty());
        let text = start + "[]}"@;
        assert(text.skip(text.len() - 3) == "[]}"@);
        assert(text.take(text.len() - 3) == start);
    }
}

/// An update of a contact that skipped nothing, with one name more among those written, is told
/// with that name, quoted, after the other names written.
pub proof fn law_contact_update_tells_each_name_written<E: Display>(
    report: ContactFieldsWriteResult<String>,
    name: &'static str,
    quote: String,
    owned: String,
    more: ContactFieldsWriteResult<String>,
    reply: BackendReply<E>,
    reply_of_more: BackendReply<E>,
    r: Result<ToolResult, ToolError>,
    r_of_more: Result<ToolResult, ToolError>,
    end: Seq<char>,
)
    requires
        reply == BackendReply::<E>::UpdateContactFields(Ok(report)),
        reply_of_more == BackendReply::<E>::UpdateContactFields(Ok(more)),
        call_ensures(answer::<E>, (reply,), r),
        call_ensures(answer::<E>, (reply_of_more,), r_of_more),
        more.contact == report.contact,
        more.fields_skipped_already_set == report.fields_skipped_already_set,
        report.fields_skipped_already_set@.len() == 0,
        more.fields_written@ == report.fields_written@.push(name),
        owned@ == name@,
        call_ensures(JsonValue::to_text, (&JsonValue::Text(owned),), quote),
        end == "],\"fields_skipped_already_set\":[]}"@,
    ensures
        r matches Ok(told) && {
            &&& r_of_more matches Ok(more_told)
            &&& told.content@.len() == 1
            &&& more_told.content@.len() == 1
            &&& told.content@[0] matches Some(text)
            &&& more_told.content@[0] matches Some(text_of_more)
            &&& text@.len() > end.len() && text@.skip(text@.len() - end.len()) == end
            &&& report.fields_written@.len() > 0 ==> text_of_more@ == text@.take(
                text@.len() - end.len(),
            ) + ","@ + quote@ + end
            &&& report.fields_written@.len() == 0 ==> text@ == "{\"contact\":"@ + report.contact@
                + ",\"fields_written\":["@ + end && text_of_more@ == text@.take(
                text@.len() - end.len(),
            ) + quote@ + end
        },
{
    reveal_strlit("[");
    reveal_strlit("]");
    reveal_strlit("}");
    reveal_strlit(",\"fields_written\":");
    reveal_strlit(",\"fields_written\":[");
    reveal_strlit(",\"fields_skipped_already_set\":");
    reveal_strlit("],\"fields_skipped_already_set\":[]}");
    let start = "{\"contact\":"@ + report.contact@ + ",\"fields_written\":["@;
    let names = report.fields_written.deep_view();
    let more_names = more.fields_written.deep_view();
    let items = names.map_values(|s: Seq<char>| quoted(s));
    let more_items = more_names.map_values(|s: Seq<char>| quoted(s));
    lemma_told(r->Ok_0, reply_text(reply));
    lemma_told(r_of_more->Ok_0, reply_text(reply_of_more));
    assert(more_names == names.push(name@));
    assert(more_items == items.push(quote@));
    assert(more_items.drop_last() == items);
    let none = report.fields_skipped_already_set.deep_view().map_values(
        |s: Seq<char>| quoted(s),
    );
    assert(none == Seq::<Seq<char>>::empty());
    assert(joined(none) == Seq::<char>::empty());
    let text = r->Ok_0.content@[0]->Some_0@;
    let text_of_more = r_of_more->Ok_0.content@[0]->Some_0@;
    assert(text == start + joined(items) + end);
    assert(text_of_more == start + joined(more_items) + end);
    assert(text.skip(text.len() - end.len()) == end);
    assert(text.take(text.len() - end.len()) == start + joined(items));
    if items.len() == 0 {
        assert(joined(items) == Seq::<char>::empty());
        assert(joined(more_items) == quote@);
        assert(text == start + end);
    }
    assert(start.len() > 0);
}

} // verus!
