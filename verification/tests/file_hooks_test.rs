use pulse::hooks::openclaw::{HookFiles, OpenClawHook};
use pulse::hooks::opencode::{OpenCodeHook, PluginFiles};
use pulse::hooks::{Action, FileState, FileWrite, HookStatus, ToolHook};
use std::path::PathBuf;

const PLUGIN: &str = "// plugin v2";
const HOOK_MD: &str = "# hook v2";
const HANDLER_TS: &str = "// handler v2";

fn opencode() -> OpenCodeHook {
    let config_dir = PathBuf::from("/home/u/.config/opencode");
    let plugin_path = config_dir.join("plugins").join("pulse-plugin.ts");
    OpenCodeHook::at(config_dir, plugin_path, PLUGIN.to_string())
}

fn plugin(config_dir_exists: bool, contents: Option<&str>) -> PluginFiles {
    PluginFiles {
        config_dir_exists,
        plugin: match contents {
            Some(text) => FileState::Contents(text.to_string()),
            None => FileState::Missing,
        },
    }
}

fn plugin_after(action: &Action, hook: &OpenCodeHook, before: Option<&str>) -> Option<String> {
    match action {
        Action::Nothing => before.map(|s| s.to_string()),
        Action::Write(files) => {
            assert_eq!(files.len(), 1);
            assert_eq!(files[0].path, hook.plugin_path());
            Some(files[0].contents.clone())
        }
        Action::RemoveFile(path) => {
            assert_eq!(path, &hook.plugin_path());
            None
        }
        Action::RemoveDir(_) => panic!("no directory is owned"),
    }
}

fn openclaw() -> OpenClawHook {
    let config_dir = PathBuf::from("/home/u/.openclaw");
    let hook_dir = config_dir.join("hooks").join("pulse-hook");
    OpenClawHook::at(config_dir, hook_dir, HOOK_MD.to_string(), HANDLER_TS.to_string())
}

fn state(contents: Option<&str>) -> FileState {
    match contents {
        Some(text) => FileState::Contents(text.to_string()),
        None => FileState::Missing,
    }
}

fn hook_files(config_dir_exists: bool, md: Option<&str>, ts: Option<&str>) -> HookFiles {
    HookFiles { config_dir_exists, hook_md: state(md), handler_ts: state(ts) }
}

#[test]
fn opencode_test_not_detected_when_config_dir_missing() {
    let hook = opencode();
    let status = hook.status(plugin(false, None)).unwrap();
    assert!(!status.detected);
    assert!(!status.connected);
    assert_eq!(status.path, Some(hook.config_dir()));
    assert_eq!(
        status.message.as_deref(),
        Some("Tool not detected. Expected settings at /home/u/.config/opencode")
    );
}

#[test]
fn opencode_test_detected_but_not_connected() {
    let status = opencode().status(plugin(true, None)).unwrap();
    assert!(status.detected);
    assert!(!status.connected);
    assert_eq!(status.installed_hooks, 0);
}

#[test]
fn test_connect_installs_plugin() {
    let hook = opencode();
    let done = hook.connect(plugin(true, None)).unwrap();
    assert!(done.status.detected);
    assert!(done.status.connected);
    assert!(done.status.modified);
    assert_eq!(done.status.installed_hooks, 1);
    assert_eq!(plugin_after(&done.action, &hook, None).as_deref(), Some(PLUGIN));
}

#[test]
fn opencode_test_connect_is_idempotent() {
    let hook = opencode();
    let first = hook.connect(plugin(true, None)).unwrap();
    let written = plugin_after(&first.action, &hook, None);
    let done = hook.connect(plugin(true, written.as_deref())).unwrap();
    assert!(!done.status.modified, "second connect should not modify");
    assert!(done.status.connected);
    assert_eq!(done.action, Action::Nothing);
}

#[test]
fn test_disconnect_removes_plugin() {
    let hook = opencode();
    let first = hook.connect(plugin(true, None)).unwrap();
    let written = plugin_after(&first.action, &hook, None);
    let done = hook.disconnect(plugin(true, written.as_deref())).unwrap();
    assert!(done.status.modified);
    assert!(!done.status.connected);
    assert_eq!(plugin_after(&done.action, &hook, written.as_deref()), None);
}

#[test]
fn opencode_test_disconnect_noop_when_not_installed() {
    let done = opencode().disconnect(plugin(true, None)).unwrap();
    assert!(!done.status.modified);
    assert!(!done.status.connected);
    assert_eq!(done.action, Action::Nothing);
}

#[test]
fn test_connect_updates_outdated_plugin() {
    let hook = opencode();
    let done = hook.connect(plugin(true, Some("// old version"))).unwrap();
    assert!(done.status.modified, "should update outdated plugin");
    assert_eq!(
        plugin_after(&done.action, &hook, Some("// old version")).as_deref(),
        Some(PLUGIN)
    );
}

#[test]
fn outdated_plugin_is_reported_as_installed_with_a_message() {
    let status = opencode().status(plugin(true, Some("// old version"))).unwrap();
    assert!(status.connected);
    assert_eq!(status.installed_hooks, 1);
    assert_eq!(status.total_hooks, 1);
    assert_eq!(status.installed_hook_names, vec!["pulse-plugin".to_string()]);
    assert_eq!(status.message.as_deref(), Some("Plugin installed but outdated"));
    let current = opencode().status(plugin(true, Some(PLUGIN))).unwrap();
    assert_eq!(current.message, None);
}

#[test]
fn undetected_host_is_never_changed() {
    let done = opencode().connect(plugin(false, Some("x"))).unwrap();
    assert!(!done.status.detected);
    assert_eq!(done.action, Action::Nothing);
    let done = openclaw().disconnect(hook_files(false, Some("x"), Some("y"))).unwrap();
    assert!(!done.status.detected);
    assert_eq!(done.action, Action::Nothing);
}

#[test]
fn openclaw_test_not_detected_when_config_dir_missing() {
    let status = openclaw().status(hook_files(false, None, None)).unwrap();
    assert!(!status.detected);
    assert!(!status.connected);
}

#[test]
fn openclaw_test_detected_but_not_connected() {
    let status = openclaw().status(hook_files(true, None, None)).unwrap();
    assert!(status.detected);
    assert!(!status.connected);
    assert_eq!(status.installed_hooks, 0);
}

#[test]
fn test_connect_installs_hook() {
    let hook = openclaw();
    let done = hook.connect(hook_files(true, None, None)).unwrap();
    assert!(done.status.detected);
    assert!(done.status.connected);
    assert!(done.status.modified);
    assert_eq!(done.status.installed_hooks, 1);
    assert_eq!(
        done.action,
        Action::Write(vec![
            FileWrite { path: hook.hook_md_path(), contents: HOOK_MD.to_string() },
            FileWrite { path: hook.handler_ts_path(), contents: HANDLER_TS.to_string() },
        ])
    );
    assert_eq!(hook.hook_md_path(), hook.hook_dir().join("HOOK.md"));
    assert_eq!(hook.handler_ts_path(), hook.hook_dir().join("handler.ts"));
}

#[test]
fn openclaw_test_connect_is_idempotent() {
    let hook = openclaw();
    hook.connect(hook_files(true, None, None)).unwrap();
    let done = hook.connect(hook_files(true, Some(HOOK_MD), Some(HANDLER_TS))).unwrap();
    assert!(!done.status.modified, "second connect should not modify");
    assert!(done.status.connected);
    assert_eq!(done.action, Action::Nothing);
}

#[test]
fn test_disconnect_removes_hook_dir() {
    let hook = openclaw();
    let done = hook.disconnect(hook_files(true, Some(HOOK_MD), Some(HANDLER_TS))).unwrap();
    assert!(done.status.modified);
    assert!(!done.status.connected);
    assert_eq!(done.action, Action::RemoveDir(hook.hook_dir()));
}

#[test]
fn openclaw_test_disconnect_noop_when_not_installed() {
    let done = openclaw().disconnect(hook_files(true, None, None)).unwrap();
    assert!(!done.status.modified);
    assert!(!done.status.connected);
}

#[test]
fn test_connect_updates_outdated_hook() {
    let hook = openclaw();
    let done = hook.connect(hook_files(true, Some("# old version"), Some("// old version"))).unwrap();
    assert!(done.status.modified, "should update outdated hook");
    match done.action {
        Action::Write(files) => assert_eq!(files[0].contents, HOOK_MD),
        other => panic!("expected a write, got {:?}", other),
    }
}

#[test]
fn one_file_of_two_is_not_installed_and_counts_as_none() {
    let hook = openclaw();
    let status = hook.status(hook_files(true, Some(HOOK_MD), None)).unwrap();
    assert!(!status.connected);
    assert_eq!(status.installed_hooks, 0);
    assert_eq!(status.total_hooks, 1);
}

#[test]
fn disconnect_deletes_the_directory_of_a_half_installed_hook() {
    let hook = openclaw();
    for files in [
        hook_files(true, Some(HOOK_MD), None),
        hook_files(true, None, Some("// old version")),
    ] {
        let done = hook.disconnect(files).unwrap();
        assert!(done.status.modified);
        assert!(!done.status.connected);
        assert_eq!(done.status.installed_hooks, 0);
        assert_eq!(done.action, Action::RemoveDir(hook.hook_dir()));
    }
}

#[test]
fn not_detected_status_is_empty() {
    let status = HookStatus::not_detected("Some Tool", PathBuf::from("/x/y"));
    assert_eq!(status.tool, "Some Tool");
    assert!(!status.detected && !status.connected && !status.modified);
    assert_eq!(status.installed_hooks, 0);
    assert_eq!(status.total_hooks, 0);
    assert!(status.installed_hook_names.is_empty());
    assert_eq!(status.message.as_deref(), Some("Tool not detected. Expected settings at /x/y"));
}
