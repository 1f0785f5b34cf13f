//! The canonical record of one lifecycle event, as it is sent to the backend.

use crate::json::{lemma_view_unfold, str_equal, Json, JsonObject, JsonValue};
use vstd::prelude::*;

verus! {

/// One lifecycle event in its canonical shape.
#[derive(Debug, PartialEq)]
pub struct SpanPayload {
    pub span_id: String,
    pub session_id: String,
    pub parent_span_id: Option<String>,
    pub timestamp: String,
    pub source: String,
    pub kind: String,
    pub event_type: String,
    pub status: String,
    pub tool_use_id: Option<String>,
    pub tool_name: Option<String>,
    pub tool_input: Option<Json>,
    pub tool_response: Option<Json>,
    pub error: Option<Json>,
    pub is_interrupt: Option<bool>,
    pub cwd: Option<String>,
    pub model: Option<String>,
    pub agent_name: Option<String>,
    pub metadata: Option<Json>,
}

/// The mathematical value of a `SpanPayload`.
pub struct SpanView {
    pub span_id: Seq<char>,
    pub session_id: Seq<char>,
    pub parent_span_id: Option<Seq<char>>,
    pub timestamp: Seq<char>,
    pub source: Seq<char>,
    pub kind: Seq<char>,
    pub event_type: Seq<char>,
    pub status: Seq<char>,
    pub tool_use_id: Option<Seq<char>>,
    pub tool_name: Option<Seq<char>>,
    pub tool_input: Option<JsonValue>,
    pub tool_response: Option<JsonValue>,
    pub error: Option<JsonValue>,
    pub is_interrupt: Option<bool>,
    pub cwd: Option<Seq<char>>,
    pub model: Option<Seq<char>>,
    pub agent_name: Option<Seq<char>>,
    pub metadata: Option<JsonValue>,
}

/// The characters of a string that may be missing.
pub open spec fn text_of(text: Option<String>) -> Option<Seq<char>> {
    match text {
        Some(s) => Some(s@),
        None => None,
    }
}

/// The value of a document that may be missing.
pub open spec fn value_of(doc: Option<Json>) -> Option<JsonValue> {
    match doc {
        Some(d) => Some(d@),
        None => None,
    }
}

impl View for SpanPayload {
    type V = SpanView;

    open spec fn view(&self) -> SpanView {
        SpanView {
            span_id: self.span_id@,
            session_id: self.session_id@,
            parent_span_id: text_of(self.parent_span_id),
            timestamp: self.timestamp@,
            source: self.source@,
            kind: self.kind@,
            event_type: self.event_type@,
            status: self.status@,
            tool_use_id: text_of(self.tool_use_id),
            tool_name: text_of(self.tool_name),
            tool_input: value_of(self.tool_input),
            tool_response: value_of(self.tool_response),
            error: value_of(self.error),
            is_interrupt: self.is_interrupt,
            cwd: text_of(self.cwd),
            model: text_of(self.model),
            agent_name: text_of(self.agent_name),
            metadata: value_of(self.metadata),
        }
    }
}

/// An object with the member `key` added where `value` is there, and as it
/// is where `value` is missing.
pub open spec fn with_optional(
    members: Map<Seq<char>, JsonValue>,
    key: Seq<char>,
    value: Option<JsonValue>,
) -> Map<Seq<char>, JsonValue> {
    match value {
        Some(v) => members.insert(key, v),
        None => members,
    }
}

/// A text as a JSON string, where it is there.
pub open spec fn as_json_text(text: Option<Seq<char>>) -> Option<JsonValue> {
    match text {
        Some(s) => Some(JsonValue::Text(s)),
        None => None,
    }
}

/// A flag as a JSON boolean, where it is there.
pub open spec fn as_json_bool(flag: Option<bool>) -> Option<JsonValue> {
    match flag {
        Some(b) => Some(JsonValue::Bool(b)),
        None => None,
    }
}

/// The members that every record has.
pub open spec fn required_members(span: SpanView) -> Map<Seq<char>, JsonValue> {
    Map::<Seq<char>, JsonValue>::empty().insert("span_id"@, JsonValue::Text(span.span_id)).insert(
        "session_id"@,
        JsonValue::Text(span.session_id),
    ).insert("timestamp"@, JsonValue::Text(span.timestamp)).insert(
        "source"@,
        JsonValue::Text(span.source),
    ).insert("kind"@, JsonValue::Text(span.kind)).insert(
        "event_type"@,
        JsonValue::Text(span.event_type),
    ).insert("status"@, JsonValue::Text(span.status))
}

/// The JSON object of a record: the required members, and each optional
/// member exactly where the record has a value for it. A missing value
/// leaves no member behind, not even a null.
pub open spec fn record_of(span: SpanView) -> JsonValue {
    let m0 = required_members(span);
    let m1 = with_optional(m0, "parent_span_id"@, as_json_text(span.parent_span_id));
    let m2 = with_optional(m1, "tool_use_id"@, as_json_text(span.tool_use_id));
    let m3 = with_optional(m2, "tool_name"@, as_json_text(span.tool_name));
    let m4 = with_optional(m3, "tool_input"@, span.tool_input);
    let m5 = with_optional(m4, "tool_response"@, span.tool_response);
    let m6 = with_optional(m5, "error"@, span.error);
    let m7 = with_optional(m6, "is_interrupt"@, as_json_bool(span.is_interrupt));
    let m8 = with_optional(m7, "cwd"@, as_json_text(span.cwd));
    let m9 = with_optional(m8, "model"@, as_json_text(span.model));
    let m10 = with_optional(m9, "agent_name"@, as_json_text(span.agent_name));
    JsonValue::Object(with_optional(m10, "metadata"@, span.metadata))
}

/// Adds a text member where the text is there.
fn insert_text(object: &mut JsonObject, key: &str, text: &Option<String>)
    ensures
        final(object)@ == with_optional(old(object)@, key@, as_json_text(text_of(*text))),
{
    match text {
        Some(s) => {
            object.insert(key.to_owned(), Json::Text(s.clone()));
        },
        None => {},
    }
}

/// Adds a document member where the document is there.
fn insert_value(object: &mut JsonObject, key: &str, value: &Option<Json>)
    ensures
        final(object)@ == with_optional(old(object)@, key@, value_of(*value)),
{
    match value {
        Some(v) => {
            object.insert(key.to_owned(), v.clone());
        },
        None => {},
    }
}

impl SpanPayload {
    /// The record as a JSON object.
    pub fn to_json(&self) -> (record: Json)
        ensures
            record@ == record_of(self@),
    {
        let mut object = JsonObject::new();
        object.insert("span_id".to_owned(), Json::Text(self.span_id.clone()));
        object.insert("session_id".to_owned(), Json::Text(self.session_id.clone()));
        object.insert("timestamp".to_owned(), Json::Text(self.timestamp.clone()));
        object.insert("source".to_owned(), Json::Text(self.source.clone()));
        object.insert("kind".to_owned(), Json::Text(self.kind.clone()));
        object.insert("event_type".to_owned(), Json::Text(self.event_type.clone()));
        object.insert("status".to_owned(), Json::Text(self.status.clone()));
        insert_text(&mut object, "parent_span_id", &self.parent_span_id);
        insert_text(&mut object, "tool_use_id", &self.tool_use_id);
        insert_text(&mut object, "tool_name", &self.tool_name);
        insert_value(&mut object, "tool_input", &self.tool_input);
        insert_value(&mut object, "tool_response", &self.tool_response);
        insert_value(&mut object, "error", &self.error);
        match self.is_interrupt {
            Some(flag) => {
                object.insert("is_interrupt".to_owned(), Json::Bool(flag));
            },
            None => {},
        }
        insert_text(&mut object, "cwd", &self.cwd);
        insert_text(&mut object, "model", &self.model);
        insert_text(&mut object, "agent_name", &self.agent_name);
        insert_value(&mut object, "metadata", &self.metadata);
        let record = Json::Object(object);
        proof {
            lemma_view_unfold(record);
        }
        record
    }
}

/// The records of a batch, as the JSON array that is sent.
pub open spec fn batch_of(spans: Seq<SpanPayload>) -> JsonValue {
    JsonValue::Array(Seq::new(spans.len(), |i: int| record_of(spans[i]@)))
}

/// The batch of records as one JSON array, in order.
pub fn spans_to_json(spans: &Vec<SpanPayload>) -> (batch: Json)
    ensures
        batch@ == batch_of(spans@),
{
    let mut records: Vec<Json> = Vec::new();
    let mut i: usize = 0;
    while i < spans.len()
        invariant
            i <= spans.len(),
            records.len() == i,
            forall|j: int| 0 <= j < i ==> (#[trigger] records@[j])@ == record_of(spans@[j]@),
        decreases spans.len() - i,
    {
        records.push(spans[i].to_json());
        i = i + 1;
    }
    let batch = Json::Array(records);
    proof {
        lemma_view_unfold(batch);
        assert(batch@->Array_0 =~= batch_of(spans@)->Array_0);
    }
    batch
}

/// Whether the host of an address is this machine: `localhost` or one of
/// the two loopback addresses. An address without a host is not.
pub fn is_local_host(host: Option<&str>) -> (local: bool)
    ensures
        local == (host matches Some(h) && (h@ == "localhost"@ || h@ == "127.0.0.1"@ || h@
            == "::1"@)),
{
    match host {
        Some(h) => str_equal(h, "localhost") || str_equal(h, "127.0.0.1") || str_equal(h, "::1"),
        None => false,
    }
}

} // verus!
