use pulse::hooks::claude_code::{
    count_installed, entry_contains_command, install_hooks, installed_hook_counts,
    uninstall_hooks, ClaudeCodeHook, HOOK_DEFINITIONS,
};
use pulse::error::PulseError;
use pulse::json::{Json, JsonObject, Member};

fn empty_object() -> Json {
    Json::Object(JsonObject::new())
}

fn object(members: Vec<(&str, Json)>) -> Json {
    let mut o = JsonObject::new();
    for (key, value) in members {
        o.insert(key.to_string(), value);
    }
    Json::Object(o)
}

fn foreign_settings() -> Json {
    let record = object(vec![
        ("type", Json::text("command")),
        ("command", Json::text("other-tool do something")),
    ]);
    let group = object(vec![("matcher", Json::text("")), ("hooks", Json::Array(vec![record]))]);
    object(vec![("hooks", object(vec![("PostToolUse", Json::Array(vec![group]))]))])
}

fn event_entries(value: &Json, event: &str) -> Vec<Json> {
    match value.get("hooks").and_then(|h| h.get(event)) {
        Some(Json::Array(entries)) => entries.clone(),
        _ => panic!("no array under {}", event),
    }
}

fn remove_event(value: &mut Json, event: &str) {
    if let Json::Object(root) = value {
        let mut hooks = root.remove("hooks").unwrap();
        if let Json::Object(events) = &mut hooks {
            events.remove(event);
        }
        root.insert("hooks".to_string(), hooks);
    }
}

#[test]
fn test_hook_definitions_count() {
    assert_eq!(HOOK_DEFINITIONS.len(), 10);
}

#[test]
fn test_hook_definitions_all_unique_events() {
    let events: Vec<&str> = HOOK_DEFINITIONS.iter().map(|(e, _)| *e).collect();
    let mut deduped = events.clone();
    deduped.sort();
    deduped.dedup();
    assert_eq!(events.len(), deduped.len(), "duplicate event names found");
}

#[test]
fn test_hook_definitions_all_unique_commands() {
    let cmds: Vec<&str> = HOOK_DEFINITIONS.iter().map(|(_, c)| *c).collect();
    let mut deduped = cmds.clone();
    deduped.sort();
    deduped.dedup();
    assert_eq!(cmds.len(), deduped.len(), "duplicate commands found");
}

#[test]
fn test_insert_hooks_into_empty_settings() {
    let mut value = empty_object();
    let changed = ClaudeCodeHook::insert_hooks(&mut value).unwrap();
    assert!(changed);

    let (installed, total, names) = installed_hook_counts(&value);
    assert_eq!(installed, 10);
    assert_eq!(total, 10);
    assert_eq!(names.len(), 10);
}

#[test]
fn test_insert_hooks_is_idempotent() {
    let mut value = empty_object();
    ClaudeCodeHook::insert_hooks(&mut value).unwrap();
    let changed = ClaudeCodeHook::insert_hooks(&mut value).unwrap();
    assert!(!changed, "second insert should not change anything");
}

#[test]
fn test_remove_hooks_cleans_up() {
    let mut value = empty_object();
    ClaudeCodeHook::insert_hooks(&mut value).unwrap();
    let changed = ClaudeCodeHook::remove_hooks(&mut value).unwrap();
    assert!(changed);

    let (installed, _, _) = installed_hook_counts(&value);
    assert_eq!(installed, 0);
}

#[test]
fn test_remove_hooks_on_empty_is_noop() {
    let mut value = empty_object();
    let changed = ClaudeCodeHook::remove_hooks(&mut value).unwrap();
    assert!(!changed);
}

#[test]
fn test_insert_preserves_existing_hooks() {
    let mut value = foreign_settings();
    ClaudeCodeHook::insert_hooks(&mut value).unwrap();

    let post_tool = event_entries(&value, "PostToolUse");
    assert_eq!(post_tool.len(), 2, "should have original + pulse hook");
}

#[test]
fn test_remove_only_removes_pulse_hooks() {
    let mut value = foreign_settings();
    ClaudeCodeHook::insert_hooks(&mut value).unwrap();
    ClaudeCodeHook::remove_hooks(&mut value).unwrap();

    let post_tool = event_entries(&value, "PostToolUse");
    assert_eq!(post_tool.len(), 1);
    assert!(entry_contains_command(&post_tool[0], "other-tool do something"));
}

#[test]
fn test_installed_hook_counts_partial() {
    let mut value = empty_object();
    ClaudeCodeHook::insert_hooks(&mut value).unwrap();

    remove_event(&mut value, "PreToolUse");
    remove_event(&mut value, "SubagentStart");
    remove_event(&mut value, "SubagentStop");

    let (installed, total, names) = installed_hook_counts(&value);
    assert_eq!(total, 10);
    assert_eq!(installed, 7);
    assert_eq!(names.len(), 7);
    assert!(!names.contains(&"PreToolUse".to_string()));
    assert!(!names.contains(&"SubagentStart".to_string()));
}

#[test]
fn partial_install_names_are_the_rest_in_order() {
    let mut value = empty_object();
    ClaudeCodeHook::insert_hooks(&mut value).unwrap();
    remove_event(&mut value, "PreToolUse");
    remove_event(&mut value, "SubagentStart");
    remove_event(&mut value, "SubagentStop");
    let (_, _, names) = installed_hook_counts(&value);
    assert_eq!(
        names,
        vec![
            "PostToolUse",
            "PostToolUseFailure",
            "SessionStart",
            "SessionEnd",
            "Stop",
            "UserPromptSubmit",
            "Notification"
        ]
    );
}

#[test]
fn install_then_uninstall_gives_the_document_back() {
    let mut value = object(vec![("theme", Json::text("dark"))]);
    let before = value.clone();
    assert!(ClaudeCodeHook::insert_hooks(&mut value).unwrap());
    assert!(value.get("hooks").is_some());
    assert!(ClaudeCodeHook::remove_hooks(&mut value).unwrap());
    assert!(value.get("hooks").is_none());
    assert_eq!(value, before);
}

#[test]
fn installed_group_has_the_documented_shape() {
    let mut value = empty_object();
    ClaudeCodeHook::insert_hooks(&mut value).unwrap();
    let entries = event_entries(&value, "Stop");
    assert_eq!(entries.len(), 1);
    assert_eq!(entries[0].get("matcher"), Some(&Json::text("")));
    let records = match entries[0].get("hooks") {
        Some(Json::Array(records)) => records.clone(),
        _ => panic!("no records"),
    };
    assert_eq!(records.len(), 1);
    assert_eq!(records[0].get("type"), Some(&Json::text("command")));
    assert_eq!(records[0].get("command"), Some(&Json::text("pulse emit stop")));
    assert_eq!(records[0].get("async"), Some(&Json::Bool(true)));
}

#[test]
fn install_works_for_any_catalogue_size() {
    let catalogues: Vec<Vec<(&'static str, &'static str)>> = vec![
        vec![],
        vec![("A", "run a")],
        vec![("A", "run a"), ("B", "run b"), ("A", "run c")],
    ];
    for catalogue in catalogues {
        let mut value = empty_object();
        let changed = install_hooks(&mut value, &catalogue).unwrap();
        assert_eq!(changed, !catalogue.is_empty());
        let (installed, total, names) = count_installed(&value, &catalogue);
        assert_eq!(installed, catalogue.len());
        assert_eq!(total, catalogue.len());
        assert_eq!(names.len(), catalogue.len());
        assert!(!install_hooks(&mut value, &catalogue).unwrap());
        uninstall_hooks(&mut value, &catalogue).unwrap();
        assert_eq!(count_installed(&value, &catalogue).0, 0);
        assert!(value.get("hooks").is_none());
    }
}

#[test]
fn malformed_documents_are_refused_and_left_alone() {
    let mut not_object = Json::Array(vec![]);
    assert!(ClaudeCodeHook::insert_hooks(&mut not_object).is_err());
    assert_eq!(not_object, Json::Array(vec![]));

    let mut not_object = Json::Array(vec![]);
    assert!(ClaudeCodeHook::remove_hooks(&mut not_object).is_err());
    assert_eq!(not_object, Json::Array(vec![]));

    let mut bad_hooks = object(vec![("hooks", Json::Bool(true))]);
    let before = bad_hooks.clone();
    assert!(ClaudeCodeHook::insert_hooks(&mut bad_hooks).is_err());
    assert_eq!(bad_hooks, before);
    assert!(ClaudeCodeHook::remove_hooks(&mut bad_hooks).is_err());
    assert_eq!(bad_hooks, before);

    let mut bad_event = object(vec![("hooks", object(vec![("Stop", Json::text("x"))]))]);
    let before = bad_event.clone();
    assert!(ClaudeCodeHook::insert_hooks(&mut bad_event).is_err());
    assert!(ClaudeCodeHook::remove_hooks(&mut bad_event).is_err());
    assert_eq!(bad_event, before);
}

#[test]
fn later_member_decides_a_repeated_key() {
    let doc = Json::Object(JsonObject {
        members: vec![
            Member { key: "k".to_string(), value: Json::Bool(false) },
            Member { key: "k".to_string(), value: Json::Bool(true) },
        ],
    });
    assert_eq!(doc.get("k"), Some(&Json::Bool(true)));
}

#[test]
fn a_hooks_member_that_is_a_number_is_refused() {
    let mut value = Json::from_text("{\"hooks\":5}").unwrap();
    let before = value.clone();
    match ClaudeCodeHook::remove_hooks(&mut value) {
        Err(PulseError::Message(words)) => assert_eq!(words, "`hooks` field must be a JSON object"),
        other => panic!("expected a message, got {:?}", other),
    }
    assert_eq!(value, before);
}

#[test]
fn a_group_without_records_is_left_alone() {
    let text = "{\"hooks\":{\"PreToolUse\":[{\"matcher\":\"x\"},{\"matcher\":\"\",\"hooks\":[{\"type\":\"command\",\"command\":\"other\"}]}]}}";
    let mut value = Json::from_text(text).unwrap();
    let before = value.clone();
    assert_eq!(ClaudeCodeHook::remove_hooks(&mut value).unwrap(), false);
    assert_eq!(value, before);

    ClaudeCodeHook::insert_hooks(&mut value).unwrap();
    assert_eq!(event_entries(&value, "PreToolUse").len(), 3);
    assert_eq!(ClaudeCodeHook::remove_hooks(&mut value).unwrap(), true);
    assert_eq!(value.to_text().unwrap(), before.to_text().unwrap());
}

#[test]
fn what_was_empty_before_stays() {
    for text in [
        "{\"hooks\":{}}",
        "{\"hooks\":{\"Stop\":[]}}",
        "{\"hooks\":{\"Stop\":[{\"hooks\":[]}]}}",
    ] {
        let mut value = Json::from_text(text).unwrap();
        assert_eq!(ClaudeCodeHook::remove_hooks(&mut value).unwrap(), false);
        assert_eq!(value.to_text().unwrap(), text);
    }
}

#[test]
fn a_group_shared_with_another_command_keeps_that_command() {
    let text = "{\"hooks\":{\"Stop\":[{\"hooks\":[{\"command\":\"pulse emit stop\"},{\"command\":\"other\"}]}]}}";
    let mut value = Json::from_text(text).unwrap();
    assert_eq!(ClaudeCodeHook::remove_hooks(&mut value).unwrap(), true);
    assert_eq!(
        value.to_text().unwrap(),
        "{\"hooks\":{\"Stop\":[{\"hooks\":[{\"command\":\"other\"}]}]}}"
    );
}

#[test]
fn the_result_tells_whether_the_document_changed() {
    let mut value = empty_object();
    let empty: Vec<(&'static str, &'static str)> = vec![];
    assert_eq!(install_hooks(&mut value, &empty).unwrap(), false);
    assert_eq!(value, empty_object());
    assert_eq!(ClaudeCodeHook::insert_hooks(&mut value).unwrap(), true);
    assert_ne!(value, empty_object());
    let installed = value.clone();
    assert_eq!(ClaudeCodeHook::insert_hooks(&mut value).unwrap(), false);
    assert_eq!(value, installed);
    assert_eq!(ClaudeCodeHook::remove_hooks(&mut value).unwrap(), true);
    assert_eq!(value, empty_object());
    assert_eq!(ClaudeCodeHook::remove_hooks(&mut value).unwrap(), false);
    assert_eq!(value, empty_object());
}
