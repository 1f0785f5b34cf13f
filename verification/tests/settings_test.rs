use pulse::error::PulseError;
use pulse::hooks::claude_code::{ClaudeCodeHook, SettingsFile};
use pulse::hooks::{Action, FileState, ToolHook};
use pulse::json::Json;
use std::path::PathBuf;

fn hook() -> ClaudeCodeHook {
    ClaudeCodeHook::at("Host A", PathBuf::from("/home/u/.host/settings.json"))
}

fn found(text: &str) -> SettingsFile {
    SettingsFile { exists: true, contents: FileState::Contents(text.to_string()) }
}

fn written(action: &Action) -> String {
    match action {
        Action::Write(files) => {
            assert_eq!(files.len(), 1);
            assert_eq!(files[0].path, PathBuf::from("/home/u/.host/settings.json"));
            files[0].contents.clone()
        }
        other => panic!("expected a write, got {:?}", other),
    }
}

#[test]
fn missing_settings_file_means_not_detected() {
    let absent = || SettingsFile { exists: false, contents: FileState::Missing };
    let status = hook().status(absent()).unwrap();
    assert!(!status.detected);
    assert_eq!(status.tool, "Host A");
    assert_eq!(status.total_hooks, 0);
    let done = hook().connect(absent()).unwrap();
    assert!(!done.status.detected);
    assert_eq!(done.action, Action::Nothing);
    let done = hook().disconnect(absent()).unwrap();
    assert!(!done.status.modified);
    assert_eq!(done.action, Action::Nothing);
}

#[test]
fn connect_writes_the_settings_once() {
    let done = hook().connect(found("{\"theme\": \"dark\"}")).unwrap();
    assert!(done.status.detected);
    assert!(done.status.connected);
    assert!(done.status.modified);
    assert_eq!(done.status.installed_hooks, 10);
    assert_eq!(done.status.total_hooks, 10);
    assert_eq!(done.status.message, None);
    let text = written(&done.action);
    let doc = Json::from_text(&text).unwrap();
    assert_eq!(doc.get("theme"), Some(&Json::text("dark")));
    assert!(doc.get("hooks").is_some());

    let again = hook().connect(found(&text)).unwrap();
    assert!(!again.status.modified);
    assert!(again.status.connected);
    assert_eq!(again.action, Action::Nothing);
}

#[test]
fn disconnect_restores_the_settings() {
    let first = hook().connect(found("{\"theme\": \"dark\"}")).unwrap();
    let text = written(&first.action);
    let done = hook().disconnect(found(&text)).unwrap();
    assert!(done.status.modified);
    assert!(!done.status.connected);
    assert_eq!(done.status.installed_hooks, 0);
    assert_eq!(done.status.total_hooks, 10);
    let text = written(&done.action);
    assert_eq!(text, "{\n  \"theme\": \"dark\"\n}");

    let again = hook().disconnect(found(&text)).unwrap();
    assert!(!again.status.modified);
    assert_eq!(again.action, Action::Nothing);
}

#[test]
fn status_counts_what_is_installed() {
    let text = "{\"hooks\": {\"Stop\": [{\"matcher\": \"\", \"hooks\": [{\"type\": \"command\", \"command\": \"pulse emit stop\"}]}]}}";
    let status = hook().status(found(text)).unwrap();
    assert!(status.detected);
    assert!(!status.connected);
    assert!(!status.modified);
    assert_eq!(status.installed_hooks, 1);
    assert_eq!(status.installed_hook_names, vec!["Stop".to_string()]);
    assert_eq!(status.path, Some(PathBuf::from("/home/u/.host/settings.json")));
}

#[test]
fn a_command_that_only_resembles_a_hook_is_not_counted() {
    let text = "{\"hooks\": {\"Stop\": [{\"hooks\": [{\"command\": \"pulse emit stop \"}]}]}}";
    let status = hook().status(found(text)).unwrap();
    assert_eq!(status.installed_hooks, 0);
    let done = hook().disconnect(found(text)).unwrap();
    assert!(!done.status.modified);
    assert_eq!(done.action, Action::Nothing);
}

#[test]
fn errors_name_their_cause() {
    match hook().connect(found("not json")) {
        Err(PulseError::Json(_)) => {}
        other => panic!("expected a JSON error, got {:?}", other),
    }
    match hook().status(found("{")) {
        Err(PulseError::Json(_)) => {}
        other => panic!("expected a JSON error, got {:?}", other),
    }
    match hook().connect(found("[]")) {
        Err(PulseError::Message(words)) => {
            assert_eq!(words, "settings file must contain a JSON object")
        }
        other => panic!("expected a message, got {:?}", other),
    }
    match hook().connect(found("{\"hooks\": 1}")) {
        Err(PulseError::Message(words)) => assert_eq!(words, "`hooks` field must be a JSON object"),
        other => panic!("expected a message, got {:?}", other),
    }
    match hook().disconnect(found("{\"hooks\": {\"Stop\": 1}}")) {
        Err(PulseError::Message(words)) => assert_eq!(words, "Hook event entries must be arrays"),
        other => panic!("expected a message, got {:?}", other),
    }
    let unreadable = SettingsFile {
        exists: true,
        contents: FileState::Unreadable(std::io::Error::new(std::io::ErrorKind::Other, "denied")),
    };
    match hook().connect(unreadable) {
        Err(PulseError::Io(cause)) => assert_eq!(cause.to_string(), "denied"),
        other => panic!("expected an I/O error, got {:?}", other),
    }
}

#[test]
fn a_file_that_went_missing_counts_as_empty_settings() {
    let gone = SettingsFile { exists: true, contents: FileState::Missing };
    let done = hook().connect(gone).unwrap();
    assert!(done.status.modified);
    assert_eq!(done.status.installed_hooks, 10);
    let gone = SettingsFile { exists: true, contents: FileState::Missing };
    assert!(!hook().status(gone).unwrap().detected);
}

#[test]
fn home_directory_decides_the_paths() {
    let hook = ClaudeCodeHook::in_home("Host A", Some(PathBuf::from("/home/u")), ".host/s.json")
        .unwrap();
    assert_eq!(hook.settings_path(), PathBuf::from("/home/u/.host/s.json"));
    assert_eq!(hook.tool_name(), "Host A");
    match ClaudeCodeHook::in_home("Host A", None, ".host/s.json") {
        Err(PulseError::HomeDirNotFound) => {}
        other => panic!("expected HomeDirNotFound, got {:?}", other),
    }
}
