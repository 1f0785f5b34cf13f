use pulse::hooks::span;
use pulse::json::{Json, JsonObject};

fn object(members: Vec<(&str, Json)>) -> Json {
    let mut o = JsonObject::new();
    for (key, value) in members {
        o.insert(key.to_string(), value);
    }
    Json::Object(o)
}

fn text(s: &str) -> Json {
    Json::text(s)
}

#[test]
fn event_type_to_kind_mappings() {
    assert_eq!(span::event_type_to_kind("pre_tool_use"), "tool_use");
    assert_eq!(span::event_type_to_kind("post_tool_use"), "tool_use");
    assert_eq!(span::event_type_to_kind("post_tool_use_failure"), "tool_use");
    assert_eq!(span::event_type_to_kind("session_start"), "session");
    assert_eq!(span::event_type_to_kind("session_end"), "session");
    assert_eq!(span::event_type_to_kind("stop"), "session");
    assert_eq!(span::event_type_to_kind("subagent_start"), "agent_run");
    assert_eq!(span::event_type_to_kind("subagent_stop"), "agent_run");
    assert_eq!(span::event_type_to_kind("user_prompt_submit"), "user_prompt");
    assert_eq!(span::event_type_to_kind("assistant_message"), "session");
    assert_eq!(span::event_type_to_kind("notification"), "notification");
    assert_eq!(span::event_type_to_kind("unknown_event"), "session");
}

#[test]
fn event_type_to_status_mappings() {
    assert_eq!(span::event_type_to_status("post_tool_use_failure"), "error");
    assert_eq!(span::event_type_to_status("post_tool_use"), "success");
    assert_eq!(span::event_type_to_status("session_start"), "success");
    assert_eq!(span::event_type_to_status("stop"), "success");
    assert_eq!(span::event_type_to_status("assistant_message"), "success");
}

#[test]
fn extract_common_fields() {
    let payload = object(vec![("session_id", text("sess_123")), ("cwd", text("/home/user/project"))]);
    let fields = span::extract("stop", &payload);
    assert_eq!(fields.session_id.as_deref(), Some("sess_123"));
    assert_eq!(fields.cwd.as_deref(), Some("/home/user/project"));
}

#[test]
fn extract_common_ignores_empty_strings() {
    let payload = object(vec![("session_id", text("")), ("cwd", text(""))]);
    let fields = span::extract("stop", &payload);
    assert!(fields.session_id.is_none());
    assert!(fields.cwd.is_none());
}

#[test]
fn extract_pre_tool_use() {
    let payload = object(vec![
        ("session_id", text("sess_1")),
        ("tool_use_id", text("tu_abc")),
        ("tool_name", text("Bash")),
        ("tool_input", object(vec![("command", text("ls -la"))])),
    ]);
    let fields = span::extract("pre_tool_use", &payload);
    assert_eq!(fields.tool_use_id.as_deref(), Some("tu_abc"));
    assert_eq!(fields.tool_name.as_deref(), Some("Bash"));
    assert_eq!(fields.tool_input, Some(object(vec![("command", text("ls -la"))])));
    assert!(fields.tool_response.is_none());
}

#[test]
fn extract_post_tool_use() {
    let payload = object(vec![
        ("session_id", text("sess_1")),
        ("tool_use_id", text("tu_abc")),
        ("tool_name", text("Read")),
        ("tool_input", object(vec![("file", text("foo.rs"))])),
        ("tool_response", text("file contents here")),
    ]);
    let fields = span::extract("post_tool_use", &payload);
    assert_eq!(fields.tool_use_id.as_deref(), Some("tu_abc"));
    assert_eq!(fields.tool_name.as_deref(), Some("Read"));
    assert_eq!(fields.tool_input, Some(object(vec![("file", text("foo.rs"))])));
    assert_eq!(fields.tool_response, Some(text("file contents here")));
}

#[test]
fn extract_post_tool_use_failure() {
    let payload = object(vec![
        ("session_id", text("sess_1")),
        ("tool_use_id", text("tu_abc")),
        ("tool_name", text("Bash")),
        ("tool_input", object(vec![("command", text("rm -rf /"))])),
        ("error", text("permission denied")),
        ("is_interrupt", Json::Bool(true)),
    ]);
    let fields = span::extract("post_tool_use_failure", &payload);
    assert_eq!(fields.tool_name.as_deref(), Some("Bash"));
    assert_eq!(fields.error, Some(text("permission denied")));
    assert_eq!(fields.is_interrupt, Some(true));
}

#[test]
fn extract_session_start() {
    let payload =
        object(vec![("session_id", text("sess_1")), ("model", text("model-large-20250514"))]);
    let fields = span::extract("session_start", &payload);
    assert_eq!(fields.model.as_deref(), Some("model-large-20250514"));
}

#[test]
fn extract_session_end() {
    let payload = object(vec![("session_id", text("sess_1")), ("reason", text("user_exit"))]);
    let fields = span::extract("session_end", &payload);
    let meta = fields.metadata.unwrap();
    assert_eq!(meta.get("reason"), Some(&text("user_exit")));
}

#[test]
fn extract_subagent_start() {
    let payload = object(vec![
        ("session_id", text("sess_1")),
        ("agent_type", text("code_reviewer")),
        ("agent_id", text("agent_xyz")),
    ]);
    let fields = span::extract("subagent_start", &payload);
    assert_eq!(fields.agent_name.as_deref(), Some("code_reviewer"));
    let meta = fields.metadata.unwrap();
    assert_eq!(meta.get("agent_id"), Some(&text("agent_xyz")));
}

#[test]
fn extract_subagent_falls_back_to_agent_name() {
    let payload =
        object(vec![("session_id", text("sess_1")), ("agent_name", text("fallback_agent"))]);
    let fields = span::extract("subagent_stop", &payload);
    assert_eq!(fields.agent_name.as_deref(), Some("fallback_agent"));
}

#[test]
fn extract_user_prompt() {
    let payload =
        object(vec![("session_id", text("sess_1")), ("prompt", text("fix the bug in main.rs"))]);
    let fields = span::extract("user_prompt_submit", &payload);
    let meta = fields.metadata.unwrap();
    assert_eq!(meta.get("prompt"), Some(&text("fix the bug in main.rs")));
}

#[test]
fn extract_notification() {
    let payload = object(vec![
        ("session_id", text("sess_1")),
        ("message", text("Build succeeded")),
        ("title", text("CI")),
    ]);
    let fields = span::extract("notification", &payload);
    let meta = fields.metadata.unwrap();
    assert_eq!(meta.get("message"), Some(&text("Build succeeded")));
    assert_eq!(meta.get("title"), Some(&text("CI")));
}

#[test]
fn extract_assistant_message_no_tokens() {
    let payload = object(vec![("session_id", text("sess_1"))]);
    let fields = span::extract("assistant_message", &payload);
    assert!(fields.metadata.is_none());
}

#[test]
fn extract_unknown_event_type() {
    let payload = object(vec![("session_id", text("sess_1")), ("some_field", text("value"))]);
    let fields = span::extract("totally_unknown", &payload);
    assert_eq!(fields.session_id.as_deref(), Some("sess_1"));
    assert!(fields.tool_name.is_none());
}

#[test]
fn into_span_returns_none_without_session_id() {
    let payload = object(vec![("tool_name", text("Bash"))]);
    let fields = span::extract("post_tool_use", &payload);
    let span = fields.into_span(
        "span-id".to_string(),
        "2025-01-01T00:00:00Z".to_string(),
        "post_tool_use".to_string(),
        "claude_code".to_string(),
    );
    assert!(span.is_none());
}

#[test]
fn into_span_builds_correct_payload() {
    let payload = object(vec![
        ("session_id", text("sess_1")),
        ("tool_use_id", text("tu_1")),
        ("tool_name", text("Bash")),
        ("tool_input", object(vec![("command", text("ls"))])),
        ("cwd", text("/tmp")),
    ]);
    let fields = span::extract("post_tool_use", &payload);
    let span = fields
        .into_span(
            "span-id-123".to_string(),
            "2025-01-01T00:00:00Z".to_string(),
            "post_tool_use".to_string(),
            "claude_code".to_string(),
        )
        .unwrap();

    assert_eq!(span.span_id, "span-id-123");
    assert_eq!(span.session_id, "sess_1");
    assert_eq!(span.event_type, "post_tool_use");
    assert_eq!(span.kind, "tool_use");
    assert_eq!(span.status, "success");
    assert_eq!(span.source, "claude_code");
    assert_eq!(span.tool_name.as_deref(), Some("Bash"));
    assert_eq!(span.cwd.as_deref(), Some("/tmp"));
}

#[test]
fn empty_session_id_makes_no_record() {
    let payload = object(vec![("session_id", text("")), ("tool_name", text("Bash"))]);
    for label in ["pre_tool_use", "stop", "notification", "made_up"] {
        let span = span::extract(label, &payload).into_span(
            "id".to_string(),
            "now".to_string(),
            label.to_string(),
            "claude_code".to_string(),
        );
        assert!(span.is_none());
    }
}

#[test]
fn unknown_label_has_common_fields_and_default_classification() {
    let payload = object(vec![
        ("session_id", text("s1")),
        ("tool_name", text("Bash")),
        ("error", text("denied")),
        ("prompt", text("hello")),
    ]);
    let span = span::extract("made_up", &payload)
        .into_span("id".to_string(), "now".to_string(), "made_up".to_string(), "x".to_string())
        .unwrap();
    assert_eq!(span.session_id, "s1");
    assert_eq!(span.kind, "session");
    assert_eq!(span.status, "success");
    assert!(span.tool_name.is_none());
    assert!(span.error.is_none());
    assert!(span.metadata.is_none());
}

#[test]
fn failure_event_gives_the_error_record() {
    let payload = object(vec![
        ("session_id", text("s1")),
        ("tool_name", text("Bash")),
        ("error", text("denied")),
        ("is_interrupt", Json::Bool(true)),
    ]);
    let span = span::extract("post_tool_use_failure", &payload)
        .into_span(
            "id".to_string(),
            "now".to_string(),
            "post_tool_use_failure".to_string(),
            "claude_code".to_string(),
        )
        .unwrap();
    assert_eq!(span.kind, "tool_use");
    assert_eq!(span.status, "error");
    assert_eq!(span.tool_name.as_deref(), Some("Bash"));
    assert_eq!(span.error, Some(text("denied")));
    assert_eq!(span.is_interrupt, Some(true));
}

#[test]
fn notification_without_message_or_title_has_no_metadata() {
    let payload = object(vec![("session_id", text("s1")), ("title", text(""))]);
    assert!(span::extract("notification", &payload).metadata.is_none());
    let only_title = object(vec![("session_id", text("s1")), ("title", text("CI"))]);
    let meta = span::extract("notification", &only_title).metadata.unwrap();
    assert_eq!(meta.get("title"), Some(&text("CI")));
    assert_eq!(meta.get("message"), None);
}
