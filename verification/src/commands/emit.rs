//! The way of one event from what a host wrote to the record that is sent.

use crate::hooks::claude_code::CLAUDE_SOURCE;
use crate::hooks::span::{extract, extracted, span_of, FieldsView, SpanFields};
use crate::http::{text_of, SpanPayload, SpanView};
use crate::json::{lemma_view_unfold, parsed, str_equal, Json, JsonObject, JsonValue};
use crate::text::{trim, trim_of};
use vstd::prelude::*;

verus! {

/// The argument of the `emit` command.
#[derive(Debug)]
pub struct EmitArgs {
    /// Event type (e.g. post_tool_use, stop)
    pub event_type: String,
}

/// `Uuid::new_v4`, written as text: a fresh random identifier. Nothing is
/// known of it beforehand.
#[verifier::external_body]
fn new_span_id() -> (id: String) {
    uuid::Uuid::new_v4().to_string()
}

/// `Utc::now`, written by `to_rfc3339`: the present time. Nothing is known
/// of it beforehand.
#[verifier::external_body]
fn now_rfc3339() -> (timestamp: String) {
    chrono::Utc::now().to_rfc3339()
}

/// Whether a text names a source that is reported under its own name.
pub open spec fn is_known_source(source: Seq<char>) -> bool {
    source == "claude_code"@ || source == "opencode"@ || source == "openclaw"@
}

/// The source under which an event is reported: the one that it names,
/// where that is one of the three known ones, and `claude_code` otherwise.
pub open spec fn source_of(source: Option<Seq<char>>) -> Seq<char> {
    match source {
        Some(name) => if is_known_source(name) {
            name
        } else {
            CLAUDE_SOURCE@
        },
        None => CLAUDE_SOURCE@,
    }
}

/// The source under which an event is reported.
pub fn normalized_source(source: Option<String>) -> (name: String)
    ensures
        name@ == source_of(text_of(source)),
{
    match source {
        Some(given) => {
            if str_equal(given.as_str(), "claude_code") || str_equal(given.as_str(), "opencode")
                || str_equal(given.as_str(), "openclaw") {
                given
            } else {
                CLAUDE_SOURCE.to_owned()
            }
        },
        None => CLAUDE_SOURCE.to_owned(),
    }
}

/// The metadata that is sent: what the event's own metadata holds, where
/// that is an object, together with the version of the tool, the project
/// and the payload as it came.
pub open spec fn merged_metadata(
    metadata: Option<JsonValue>,
    cli_version: Seq<char>,
    project_id: Seq<char>,
    payload: JsonValue,
) -> JsonValue {
    let base = match metadata {
        Some(JsonValue::Object(members)) => members,
        _ => Map::<Seq<char>, JsonValue>::empty(),
    };
    JsonValue::Object(
        base.insert("cli_version"@, JsonValue::Text(cli_version)).insert(
            "project_id"@,
            JsonValue::Text(project_id),
        ).insert("raw"@, payload),
    )
}

/// Adds the version of the tool, the project and the payload as it came to
/// the metadata of an event.
pub fn merge_metadata(
    metadata: Option<Json>,
    cli_version: &str,
    project_id: &str,
    payload: &Json,
) -> (merged: Json)
    ensures
        merged@ == merged_metadata(
            crate::http::value_of(metadata),
            cli_version@,
            project_id@,
            payload@,
        ),
{
    let mut members = JsonObject::new();
    match metadata {
        Some(found) => {
            proof {
                lemma_view_unfold(found);
            }
            match found {
                Json::Object(object) => {
                    members = object;
                },
                _ => {},
            }
        },
        None => {},
    }
    members.insert("cli_version".to_owned(), Json::text(cli_version));
    members.insert("project_id".to_owned(), Json::text(project_id));
    members.insert("raw".to_owned(), payload.clone());
    let merged = Json::Object(members);
    proof {
        lemma_view_unfold(merged);
    }
    merged
}

/// The record of an event, from the label it was emitted with and the text
/// that the host wrote: `None` where the label or the text is blank, where
/// the text is not JSON, and where the payload names no session.
pub open spec fn prepared(
    event_type: Seq<char>,
    input: Seq<char>,
    project_id: Seq<char>,
    cli_version: Seq<char>,
    span_id: Seq<char>,
    timestamp: Seq<char>,
) -> Option<SpanView> {
    let label = trim_of(event_type);
    if label.len() == 0 || trim_of(input).len() == 0 {
        None
    } else {
        match parsed(input) {
            Some(payload) => {
                let found = extracted(label, payload);
                let fields = FieldsView {
                    metadata: Some(
                        merged_metadata(found.metadata, cli_version, project_id, payload),
                    ),
                    source: None,
                    ..found
                };
                span_of(fields, span_id, timestamp, label, source_of(found.source))
            },
            None => None,
        }
    }
}

/// Makes the record of an event with the identifier and the time given.
///
/// Nothing is made of a blank label, of a blank or malformed text, or of a
/// payload without a session: such an event is dropped, which is no error.
pub fn prepare_span(
    event_type: &str,
    input: &str,
    project_id: &str,
    cli_version: &str,
    span_id: String,
    timestamp: String,
) -> (span: Option<SpanPayload>)
    ensures
        match span {
            Some(payload) => Some(payload@) == prepared(
                event_type@,
                input@,
                project_id@,
                cli_version@,
                span_id@,
                timestamp@,
            ),
            None => prepared(
                event_type@,
                input@,
                project_id@,
                cli_version@,
                span_id@,
                timestamp@,
            ) is None,
        },
{
    let label = trim(event_type);
    if label.is_empty() {
        return None;
    }
    if trim(input).is_empty() {
        return None;
    }
    let payload = match Json::from_text(input) {
        Ok(value) => value,
        Err(_) => {
            return None;
        },
    };
    let mut fields: SpanFields = extract(label, &payload);
    let mut metadata: Option<Json> = None;
    core::mem::swap(&mut fields.metadata, &mut metadata);
    fields.metadata = Some(merge_metadata(metadata, cli_version, project_id, &payload));
    let mut named: Option<String> = None;
    core::mem::swap(&mut fields.source, &mut named);
    let source = normalized_source(named);
    fields.into_span(span_id, timestamp, label.to_owned(), source)
}

/// Makes the record of an event with a fresh identifier and the present time.
///
/// Whatever the identifier and the time turn out to be, the record is the
/// one that `prepare_span` makes with them, and an event that is dropped is
/// dropped for every identifier and time.
pub fn emit_span(event_type: &str, input: &str, project_id: &str, cli_version: &str) -> (span:
    Option<SpanPayload>)
    ensures
        match span {
            Some(payload) => Some(payload@) == prepared(
                event_type@,
                input@,
                project_id@,
                cli_version@,
                payload@.span_id,
                payload@.timestamp,
            ),
            None => forall|span_id: Seq<char>, timestamp: Seq<char>|
                #[trigger] prepared(
                    event_type@,
                    input@,
                    project_id@,
                    cli_version@,
                    span_id,
                    timestamp,
                ) is None,
        },
{
    prepare_span(event_type, input, project_id, cli_version, new_span_id(), now_rfc3339())
}

} // verus!
