use pulse::http::{spans_to_json, SpanPayload};
use pulse::json::{Json, JsonObject};

fn object(members: Vec<(&str, Json)>) -> Json {
    let mut o = JsonObject::new();
    for (key, value) in members {
        o.insert(key.to_string(), value);
    }
    Json::Object(o)
}

fn minimal_span() -> SpanPayload {
    SpanPayload {
        span_id: "550e8400-e29b-41d4-a716-446655440000".to_string(),
        session_id: "sess_123".to_string(),
        parent_span_id: None,
        timestamp: "2025-01-01T00:00:00+00:00".to_string(),
        source: "claude_code".to_string(),
        kind: "tool_use".to_string(),
        event_type: "post_tool_use".to_string(),
        status: "success".to_string(),
        tool_use_id: None,
        tool_name: None,
        tool_input: None,
        tool_response: None,
        error: None,
        is_interrupt: None,
        cwd: None,
        model: None,
        agent_name: None,
        metadata: None,
    }
}

#[test]
fn serialization_includes_required_fields() {
    let json = minimal_span().to_json();
    assert_eq!(json.get("span_id"), Some(&Json::text("550e8400-e29b-41d4-a716-446655440000")));
    assert_eq!(json.get("session_id"), Some(&Json::text("sess_123")));
    assert_eq!(json.get("source"), Some(&Json::text("claude_code")));
    assert_eq!(json.get("kind"), Some(&Json::text("tool_use")));
    assert_eq!(json.get("event_type"), Some(&Json::text("post_tool_use")));
    assert_eq!(json.get("status"), Some(&Json::text("success")));
}

#[test]
fn serialization_omits_none_fields() {
    let json = minimal_span().to_json();
    let obj = json.as_object().unwrap();
    assert!(!obj.contains_key("parent_span_id"));
    assert!(!obj.contains_key("duration_ms"));
    assert!(!obj.contains_key("tool_use_id"));
    assert!(!obj.contains_key("tool_name"));
    assert!(!obj.contains_key("tool_input"));
    assert!(!obj.contains_key("tool_response"));
    assert!(!obj.contains_key("error"));
    assert!(!obj.contains_key("is_interrupt"));
    assert!(!obj.contains_key("cwd"));
    assert!(!obj.contains_key("model"));
    assert!(!obj.contains_key("agent_name"));
    assert!(!obj.contains_key("metadata"));
}

#[test]
fn serialization_includes_optional_fields_when_set() {
    let mut span = minimal_span();
    span.tool_use_id = Some("tu_abc".to_string());
    span.tool_name = Some("Bash".to_string());
    span.tool_input = Some(object(vec![("command", Json::text("ls"))]));
    span.cwd = Some("/tmp".to_string());
    span.metadata = Some(object(vec![("cli_version", Json::text("0.1.0"))]));

    let json = span.to_json();
    assert_eq!(json.get("tool_use_id"), Some(&Json::text("tu_abc")));
    assert_eq!(json.get("tool_name"), Some(&Json::text("Bash")));
    assert_eq!(json.get("tool_input").unwrap().get("command"), Some(&Json::text("ls")));
    assert_eq!(json.get("cwd"), Some(&Json::text("/tmp")));
    assert_eq!(json.get("metadata").unwrap().get("cli_version"), Some(&Json::text("0.1.0")));
}

#[test]
fn serialization_batch_format() {
    let spans = vec![minimal_span(), minimal_span()];
    let json = spans_to_json(&spans);
    assert_eq!(json.as_array().unwrap().len(), 2);
}

#[test]
fn record_text_round_trips_through_the_parser() {
    let mut span = minimal_span();
    span.is_interrupt = Some(false);
    let text = span.to_json().to_text().unwrap();
    assert!(text.starts_with('{'));
    assert!(!text.contains('\n'));
    let back = Json::from_text(&text).unwrap();
    assert_eq!(back.get("session_id"), Some(&Json::text("sess_123")));
    assert_eq!(back.get("is_interrupt"), Some(&Json::Bool(false)));
    assert_eq!(back.get("tool_name"), None);
}

#[test]
fn text_that_is_not_json_is_an_error() {
    assert!(Json::from_text("{ not json").is_err());
    assert!(Json::from_text("").is_err());
    assert_eq!(Json::from_text("[1, true, null]").unwrap().as_array().unwrap().len(), 3);
}

#[test]
fn pretty_text_is_indented_and_keeps_numbers() {
    let doc = Json::from_text("{\"b\": 0.0042, \"a\": [100]}").unwrap();
    let text = doc.to_pretty_text().unwrap();
    assert_eq!(text, "{\n  \"a\": [\n    100\n  ],\n  \"b\": 0.0042\n}");
    assert_eq!(doc.clone(), doc);
}

#[test]
fn serialization_includes_usage_in_metadata() {
    let mut span = minimal_span();
    span.metadata = Some(
        Json::from_text(
            "{\"usage\": {\"input_tokens\": 100, \"output_tokens\": 50, \"reasoning_tokens\": 10, \"cache_read_tokens\": 5, \"cache_write_tokens\": 3, \"cost\": 0.0042}}",
        )
        .unwrap(),
    );

    let json = span.to_json();
    let usage = json.get("metadata").unwrap().get("usage").unwrap();
    let number = |text: &str| Json::from_text(text).unwrap();
    assert_eq!(usage.get("input_tokens"), Some(&number("100")));
    assert_eq!(usage.get("output_tokens"), Some(&number("50")));
    assert_eq!(usage.get("reasoning_tokens"), Some(&number("10")));
    assert_eq!(usage.get("cache_read_tokens"), Some(&number("5")));
    assert_eq!(usage.get("cache_write_tokens"), Some(&number("3")));
    assert_eq!(usage.get("cost"), Some(&number("0.0042")));
    let text = json.to_text().unwrap();
    assert!(text.contains("\"cost\":0.0042"));
}

#[test]
fn repeated_key_is_written_once_with_its_later_value() {
    let doc = Json::Object(JsonObject {
        members: vec![
            pulse::json::Member { key: "k".to_string(), value: Json::Bool(false) },
            pulse::json::Member { key: "a".to_string(), value: Json::Null },
            pulse::json::Member { key: "k".to_string(), value: Json::Bool(true) },
        ],
    });
    assert_eq!(doc.to_text().unwrap(), "{\"a\":null,\"k\":true}");
}
