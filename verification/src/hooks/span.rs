//! Normalisation of lifecycle events: from the label of an event and the
//! payload that a host sent with it to the fields of a canonical record.

use crate::http::{text_of, value_of, SpanPayload, SpanView};
use crate::json::{lemma_view_unfold, str_equal, Json, JsonObject, JsonValue};
use vstd::prelude::*;

verus! {

/// The fields that were found in the payload of one event.
#[derive(Debug, PartialEq)]
pub struct SpanFields {
    pub session_id: Option<String>,
    pub cwd: Option<String>,
    pub tool_use_id: Option<String>,
    pub tool_name: Option<String>,
    pub tool_input: Option<Json>,
    pub tool_response: Option<Json>,
    pub error: Option<Json>,
    pub is_interrupt: Option<bool>,
    pub model: Option<String>,
    pub agent_name: Option<String>,
    pub metadata: Option<Json>,
    pub source: Option<String>,
}

/// The mathematical value of `SpanFields`.
pub struct FieldsView {
    pub session_id: Option<Seq<char>>,
    pub cwd: Option<Seq<char>>,
    pub tool_use_id: Option<Seq<char>>,
    pub tool_name: Option<Seq<char>>,
    pub tool_input: Option<JsonValue>,
    pub tool_response: Option<JsonValue>,
    pub error: Option<JsonValue>,
    pub is_interrupt: Option<bool>,
    pub model: Option<Seq<char>>,
    pub agent_name: Option<Seq<char>>,
    pub metadata: Option<JsonValue>,
    pub source: Option<Seq<char>>,
}

impl View for SpanFields {
    type V = FieldsView;

    open spec fn view(&self) -> FieldsView {
        FieldsView {
            session_id: text_of(self.session_id),
            cwd: text_of(self.cwd),
            tool_use_id: text_of(self.tool_use_id),
            tool_name: text_of(self.tool_name),
            tool_input: value_of(self.tool_input),
            tool_response: value_of(self.tool_response),
            error: value_of(self.error),
            is_interrupt: self.is_interrupt,
            model: text_of(self.model),
            agent_name: text_of(self.agent_name),
            metadata: value_of(self.metadata),
            source: text_of(self.source),
        }
    }
}

/// No field at all.
pub open spec fn no_fields() -> FieldsView {
    FieldsView {
        session_id: None,
        cwd: None,
        tool_use_id: None,
        tool_name: None,
        tool_input: None,
        tool_response: None,
        error: None,
        is_interrupt: None,
        model: None,
        agent_name: None,
        metadata: None,
        source: None,
    }
}

/// The fields that every event has: session, working directory, model and
/// reporting source. Each is there where the payload holds a string under
/// its key that is not empty.
pub open spec fn common_fields(payload: JsonValue) -> FieldsView {
    FieldsView {
        session_id: payload.text_member("session_id"@),
        cwd: payload.text_member("cwd"@),
        model: payload.text_member("model"@),
        source: payload.text_member("source"@),
        ..no_fields()
    }
}

/// The common fields together with the identity and the input of the tool.
pub open spec fn tool_fields(payload: JsonValue) -> FieldsView {
    FieldsView {
        tool_use_id: payload.text_member("tool_use_id"@),
        tool_name: payload.text_member("tool_name"@),
        tool_input: payload.member("tool_input"@),
        ..common_fields(payload)
    }
}

/// The flag that the payload holds under `key`, where it holds a boolean there.
pub open spec fn flag_member(payload: JsonValue, key: Seq<char>) -> Option<bool> {
    match payload.member(key) {
        Some(JsonValue::Bool(flag)) => Some(flag),
        _ => None,
    }
}

/// The metadata with the one member `key`, where `text` is there.
pub open spec fn one_member(key: Seq<char>, text: Option<Seq<char>>) -> Option<JsonValue> {
    match text {
        Some(t) => Some(
            JsonValue::Object(Map::<Seq<char>, JsonValue>::empty().insert(key, JsonValue::Text(t))),
        ),
        None => None,
    }
}

/// The metadata of a notification: its message and its title, each where it
/// is there, and no metadata where neither is.
pub open spec fn notice(message: Option<Seq<char>>, title: Option<Seq<char>>) -> Option<JsonValue> {
    if message is None && title is None {
        None
    } else {
        let with_message = match message {
            Some(m) => Map::<Seq<char>, JsonValue>::empty().insert("message"@, JsonValue::Text(m)),
            None => Map::<Seq<char>, JsonValue>::empty(),
        };
        Some(
            JsonValue::Object(
                match title {
                    Some(t) => with_message.insert("title"@, JsonValue::Text(t)),
                    None => with_message,
                },
            ),
        )
    }
}

/// The name of the agent: the payload's `agent_type`, and its `agent_name`
/// where there is no `agent_type`.
pub open spec fn agent_of(payload: JsonValue) -> Option<Seq<char>> {
    match payload.text_member("agent_type"@) {
        Some(name) => Some(name),
        None => payload.text_member("agent_name"@),
    }
}

/// The label names an event that has fields of its own.
pub open spec fn is_known_event(event_type: Seq<char>) -> bool {
    ||| event_type == "pre_tool_use"@
    ||| event_type == "post_tool_use"@
    ||| event_type == "post_tool_use_failure"@
    ||| event_type == "session_start"@
    ||| event_type == "session_end"@
    ||| event_type == "stop"@
    ||| event_type == "subagent_start"@
    ||| event_type == "subagent_stop"@
    ||| event_type == "user_prompt_submit"@
    ||| event_type == "notification"@
}

/// The fields of the event with the label `event_type` and the payload
/// `payload`: the common fields, and those of the event's kind. A label that
/// names no known event has the common fields alone.
pub open spec fn extracted(event_type: Seq<char>, payload: JsonValue) -> FieldsView {
    if event_type == "pre_tool_use"@ {
        tool_fields(payload)
    } else if event_type == "post_tool_use"@ {
        FieldsView { tool_response: payload.member("tool_response"@), ..tool_fields(payload) }
    } else if event_type == "post_tool_use_failure"@ {
        FieldsView {
            error: payload.member("error"@),
            is_interrupt: flag_member(payload, "is_interrupt"@),
            ..tool_fields(payload)
        }
    } else if event_type == "session_start"@ {
        common_fields(payload)
    } else if event_type == "session_end"@ {
        FieldsView {
            metadata: one_member("reason"@, payload.text_member("reason"@)),
            ..common_fields(payload)
        }
    } else if event_type == "stop"@ {
        common_fields(payload)
    } else if event_type == "subagent_start"@ || event_type == "subagent_stop"@ {
        FieldsView {
            agent_name: agent_of(payload),
            metadata: one_member("agent_id"@, payload.text_member("agent_id"@)),
            ..common_fields(payload)
        }
    } else if event_type == "user_prompt_submit"@ {
        FieldsView {
            metadata: one_member("prompt"@, payload.text_member("prompt"@)),
            ..common_fields(payload)
        }
    } else if event_type == "notification"@ {
        FieldsView {
            metadata: notice(payload.text_member("message"@), payload.text_member("title"@)),
            ..common_fields(payload)
        }
    } else {
        common_fields(payload)
    }
}

/// The coarse kind of an event, from its label alone.
pub open spec fn kind_of(event_type: Seq<char>) -> Seq<char> {
    if event_type == "pre_tool_use"@ || event_type == "post_tool_use"@ || event_type
        == "post_tool_use_failure"@ {
        "tool_use"@
    } else if event_type == "session_start"@ || event_type == "session_end"@ || event_type
        == "stop"@ {
        "session"@
    } else if event_type == "subagent_start"@ || event_type == "subagent_stop"@ {
        "agent_run"@
    } else if event_type == "user_prompt_submit"@ {
        "user_prompt"@
    } else if event_type == "notification"@ {
        "notification"@
    } else {
        "session"@
    }
}

/// The status of an event, from its label alone: an error for the failure
/// of a tool, success for every other label.
pub open spec fn status_of(event_type: Seq<char>) -> Seq<char> {
    if event_type == "post_tool_use_failure"@ {
        "error"@
    } else {
        "success"@
    }
}

/// The canonical record of an event with the fields `fields`, or `None`
/// where the fields name no session.
pub open spec fn span_of(
    fields: FieldsView,
    span_id: Seq<char>,
    timestamp: Seq<char>,
    event_type: Seq<char>,
    source: Seq<char>,
) -> Option<SpanView> {
    match fields.session_id {
        Some(session_id) => Some(
            SpanView {
                span_id,
                session_id,
                parent_span_id: None,
                timestamp,
                source,
                kind: kind_of(event_type),
                event_type,
                status: status_of(event_type),
                tool_use_id: fields.tool_use_id,
                tool_name: fields.tool_name,
                tool_input: fields.tool_input,
                tool_response: fields.tool_response,
                error: fields.error,
                is_interrupt: fields.is_interrupt,
                cwd: fields.cwd,
                model: fields.model,
                agent_name: fields.agent_name,
                metadata: fields.metadata,
            },
        ),
        None => None,
    }
}

/// The coarse kind of an event, from its label alone.
pub fn event_type_to_kind(event_type: &str) -> (kind: &'static str)
    ensures
        kind@ == kind_of(event_type@),
{
    if str_equal(event_type, "pre_tool_use") || str_equal(event_type, "post_tool_use") || str_equal(
        event_type,
        "post_tool_use_failure",
    ) {
        "tool_use"
    } else if str_equal(event_type, "session_start") || str_equal(event_type, "session_end")
        || str_equal(event_type, "stop") {
        "session"
    } else if str_equal(event_type, "subagent_start") || str_equal(event_type, "subagent_stop") {
        "agent_run"
    } else if str_equal(event_type, "user_prompt_submit") {
        "user_prompt"
    } else if str_equal(event_type, "notification") {
        "notification"
    } else {
        "session"
    }
}

/// The status of an event, from its label alone.
pub fn event_type_to_status(event_type: &str) -> (status: &'static str)
    ensures
        status@ == status_of(event_type@),
{
    if str_equal(event_type, "post_tool_use_failure") {
        "error"
    } else {
        "success"
    }
}

/// The string that the payload holds under `key`, where it is not empty.
fn str_field(payload: &Json, key: &str) -> (text: Option<String>)
    ensures
        text_of(text) == payload@.text_member(key@),
{
    match payload.get(key) {
        Some(value) => match value.as_str() {
            Some(s) => if s.is_empty() {
                None
            } else {
                Some(s.to_owned())
            },
            None => None,
        },
        None => None,
    }
}

/// A copy of what the payload holds under `key`.
fn value_field(payload: &Json, key: &str) -> (value: Option<Json>)
    ensures
        value_of(value) == payload@.member(key@),
{
    match payload.get(key) {
        Some(found) => Some(found.clone()),
        None => None,
    }
}

/// The metadata with the one member `key`, where `text` is there.
fn one_member_metadata(key: &str, text: Option<String>) -> (metadata: Option<Json>)
    ensures
        value_of(metadata) == one_member(key@, text_of(text)),
{
    match text {
        Some(t) => {
            let mut object = JsonObject::new();
            object.insert(key.to_owned(), Json::Text(t));
            let metadata = Json::Object(object);
            proof {
                lemma_view_unfold(metadata);
            }
            Some(metadata)
        },
        None => None,
    }
}

impl SpanFields {
    fn new() -> (fields: SpanFields)
        ensures
            fields@ == no_fields(),
    {
        SpanFields {
            session_id: None,
            cwd: None,
            tool_use_id: None,
            tool_name: None,
            tool_input: None,
            tool_response: None,
            error: None,
            is_interrupt: None,
            model: None,
            agent_name: None,
            metadata: None,
            source: None,
        }
    }

    /// Turns the fields into the canonical record of the event. Fields that
    /// name no session make no record.
    pub fn into_span(
        self,
        span_id: String,
        timestamp: String,
        event_type: String,
        source: String,
    ) -> (span: Option<SpanPayload>)
        ensures
            match span {
                Some(payload) => Some(payload@) == span_of(
                    self@,
                    span_id@,
                    timestamp@,
                    event_type@,
                    source@,
                ),
                None => self@.session_id is None,
            },
    {
        match self.session_id {
            Some(session_id) => {
                let kind = event_type_to_kind(event_type.as_str()).to_owned();
                let status = event_type_to_status(event_type.as_str()).to_owned();
                Some(
                    SpanPayload {
                        span_id,
                        session_id,
                        parent_span_id: None,
                        timestamp,
                        source,
                        kind,
                        status,
                        event_type,
                        tool_use_id: self.tool_use_id,
                        tool_name: self.tool_name,
                        tool_input: self.tool_input,
                        tool_response: self.tool_response,
                        error: self.error,
                        is_interrupt: self.is_interrupt,
                        cwd: self.cwd,
                        model: self.model,
                        agent_name: self.agent_name,
                        metadata: self.metadata,
                    },
                )
            },
            None => None,
        }
    }
}

fn extract_common(payload: &Json) -> (fields: SpanFields)
    ensures
        fields@ == common_fields(payload@),
{
    let mut fields = SpanFields::new();
    fields.session_id = str_field(payload, "session_id");
    fields.cwd = str_field(payload, "cwd");
    fields.model = str_field(payload, "model");
    fields.source = str_field(payload, "source");
    fields
}

fn extract_tool_common(payload: &Json, fields: &mut SpanFields)
    ensures
        final(fields)@ == (FieldsView {
            tool_use_id: payload@.text_member("tool_use_id"@),
            tool_name: payload@.text_member("tool_name"@),
            tool_input: match payload@.member("tool_input"@) {
                Some(input) => Some(input),
                None => old(fields)@.tool_input,
            },
            ..old(fields)@
        }),
{
    fields.tool_use_id = str_field(payload, "tool_use_id");
    fields.tool_name = str_field(payload, "tool_name");
    match value_field(payload, "tool_input") {
        Some(input) => {
            fields.tool_input = Some(input);
        },
        None => {},
    }
}

fn extract_notification(payload: &Json) -> (metadata: Option<Json>)
    ensures
        value_of(metadata) == notice(
            payload@.text_member("message"@),
            payload@.text_member("title"@),
        ),
{
    let mut meta = JsonObject::new();
    match str_field(payload, "message") {
        Some(message) => {
            meta.insert("message".to_owned(), Json::Text(message));
        },
        None => {},
    }
    match str_field(payload, "title") {
        Some(title) => {
            meta.insert("title".to_owned(), Json::Text(title));
        },
        None => {},
    }
    if !meta.is_empty() {
        let metadata = Json::Object(meta);
        proof {
            lemma_view_unfold(metadata);
        }
        Some(metadata)
    } else {
        proof {
            let empty = Map::<Seq<char>, JsonValue>::empty();
            if payload@.text_member("message"@) is Some {
                assert(meta@.contains_key("message"@) || meta@.contains_key("title"@));
            }
            if payload@.text_member("title"@) is Some {
                assert(meta@.contains_key("title"@));
            }
        }
        None
    }
}

/// Reads the fields of an event from its payload.
///
/// Every event has the common fields. A tool event also has the identity
/// and the input of the tool, its response after a success, its error and
/// whether it was interrupted after a failure. The end of a session has its
/// reason, an agent event the agent's name and identity, a prompt its text,
/// a notification its message and title. A label that names no known event
/// has the common fields alone; that is no error.
pub fn extract(event_type: &str, payload: &Json) -> (fields: SpanFields)
    ensures
        fields@ == extracted(event_type@, payload@),
{
    let mut fields = extract_common(payload);
    if str_equal(event_type, "pre_tool_use") {
        extract_tool_common(payload, &mut fields);
    } else if str_equal(event_type, "post_tool_use") {
        extract_tool_common(payload, &mut fields);
        match value_field(payload, "tool_response") {
            Some(response) => {
                fields.tool_response = Some(response);
            },
            None => {},
        }
    } else if str_equal(event_type, "post_tool_use_failure") {
        extract_tool_common(payload, &mut fields);
        match value_field(payload, "error") {
            Some(error) => {
                fields.error = Some(error);
            },
            None => {},
        }
        match payload.get("is_interrupt") {
            Some(value) => match value.as_bool() {
                Some(flag) => {
                    fields.is_interrupt = Some(flag);
                },
                None => {},
            },
            None => {},
        }
    } else if str_equal(event_type, "session_start") {
        fields.model = str_field(payload, "model");
    } else if str_equal(event_type, "session_end") {
        match one_member_metadata("reason", str_field(payload, "reason")) {
            Some(metadata) => {
                fields.metadata = Some(metadata);
            },
            None => {},
        }
    } else if str_equal(event_type, "stop") {
    } else if str_equal(event_type, "subagent_start") || str_equal(event_type, "subagent_stop") {
        fields.agent_name = str_field(payload, "agent_type");
        if fields.agent_name.is_none() {
            fields.agent_name = str_field(payload, "agent_name");
        }
        match one_member_metadata("agent_id", str_field(payload, "agent_id")) {
            Some(metadata) => {
                fields.metadata = Some(metadata);
            },
            None => {},
        }
    } else if str_equal(event_type, "user_prompt_submit") {
        match one_member_metadata("prompt", str_field(payload, "prompt")) {
            Some(metadata) => {
                fields.metadata = Some(metadata);
            },
            None => {},
        }
    } else if str_equal(event_type, "notification") {
        match extract_notification(payload) {
            Some(metadata) => {
                fields.metadata = Some(metadata);
            },
            None => {},
        }
    }
    fields
}

/// A payload without a session makes no record: where the payload holds no
/// string under `session_id`, or an empty one, nothing is emitted, whatever
/// the label and the rest of the payload.
pub proof fn law_no_session_no_span(
    event_type: Seq<char>,
    payload: JsonValue,
    span_id: Seq<char>,
    timestamp: Seq<char>,
    source: Seq<char>,
)
    ensures
        payload.text_member("session_id"@) is None <==> span_of(
            extracted(event_type, payload),
            span_id,
            timestamp,
            event_type,
            source,
        ) is None,
{
}

/// An unknown label is no error: its record has the common fields alone,
/// the kind `session` and the status `success`.
pub proof fn law_unknown_event_is_common(event_type: Seq<char>, payload: JsonValue)
    requires
        !is_known_event(event_type),
    ensures
        extracted(event_type, payload) == common_fields(payload),
        kind_of(event_type) == "session"@,
        status_of(event_type) == "success"@,
{
}

} // verus!
