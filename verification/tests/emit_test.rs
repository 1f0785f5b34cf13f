use pulse::commands::connect::{connect_summary, some_connected};
use pulse::commands::dashboard::compact_body;
use pulse::commands::setup::{
    extract_cookie_pair, find_project, format_api_key_for_display, wait_step, waited, WaitStep,
};
use pulse::commands::disconnect::disconnect_summary;
use pulse::commands::emit::{emit_span, normalized_source, prepare_span};
use pulse::commands::status::{hook_status_line, mask_key};
use pulse::config::{ConfigStore, PulseConfig};
use pulse::hooks::HookStatus;
use pulse::json::Json;
use pulse::text::{decimal_text, join_texts};
use std::path::PathBuf;

fn prepare(label: &str, input: &str) -> Option<pulse::http::SpanPayload> {
    prepare_span(label, input, "proj_1", "0.1.0", "id-1".to_string(), "t-1".to_string())
}

#[test]
fn source_is_kept_only_when_known() {
    assert_eq!(normalized_source(Some("opencode".to_string())), "opencode");
    assert_eq!(normalized_source(Some("openclaw".to_string())), "openclaw");
    assert_eq!(normalized_source(Some("claude_code".to_string())), "claude_code");
    assert_eq!(normalized_source(Some("elsewhere".to_string())), "claude_code");
    assert_eq!(normalized_source(None), "claude_code");
}

#[test]
fn prepared_record_carries_version_project_and_raw_payload() {
    let input = " {\"session_id\": \"s1\", \"source\": \"opencode\", \"prompt\": \"hi\"} ";
    let span = prepare("  user_prompt_submit\n", input).unwrap();
    assert_eq!(span.span_id, "id-1");
    assert_eq!(span.timestamp, "t-1");
    assert_eq!(span.event_type, "user_prompt_submit");
    assert_eq!(span.kind, "user_prompt");
    assert_eq!(span.source, "opencode");
    let meta = span.metadata.unwrap();
    assert_eq!(meta.get("prompt"), Some(&Json::text("hi")));
    assert_eq!(meta.get("cli_version"), Some(&Json::text("0.1.0")));
    assert_eq!(meta.get("project_id"), Some(&Json::text("proj_1")));
    assert_eq!(meta.get("raw"), Some(&Json::from_text(input).unwrap()));
}

#[test]
fn blank_or_malformed_events_are_dropped() {
    assert!(prepare("   ", "{\"session_id\": \"s1\"}").is_none());
    assert!(prepare("stop", "  \n ").is_none());
    assert!(prepare("stop", "{ nope").is_none());
    assert!(prepare("stop", "{\"session_id\": \"\"}").is_none());
    assert!(prepare("stop", "{\"session_id\": \"s1\"}").is_some());
}

#[test]
fn emitted_records_get_an_identifier_and_a_time() {
    let one = emit_span("stop", "{\"session_id\": \"s1\"}", "p", "v").unwrap();
    let two = emit_span("stop", "{\"session_id\": \"s1\"}", "p", "v").unwrap();
    assert_eq!(one.span_id.len(), 36);
    assert_ne!(one.span_id, two.span_id);
    assert!(one.timestamp.contains('T'));
    assert!(emit_span("stop", "", "p", "v").is_none());
}

#[test]
fn settings_are_sanitized() {
    let config = PulseConfig {
        api_url: "  https://pulse.example.com/// ".to_string(),
        api_key: " key \n".to_string(),
        project_id: "\tproj ".to_string(),
        local_email: Some(" me@x ".to_string()),
        local_password: None,
    };
    let clean = config.sanitized();
    assert_eq!(clean.api_url, "https://pulse.example.com///");
    assert_eq!(clean.api_key, "key");
    assert_eq!(clean.project_id, "proj");
    assert_eq!(clean.local_email.as_deref(), Some(" me@x "));
    let config = PulseConfig {
        api_url: " http://localhost:3000//".to_string(),
        api_key: String::new(),
        project_id: String::new(),
        local_email: None,
        local_password: None,
    };
    assert_eq!(config.sanitized().api_url, "http://localhost:3000");
}

#[test]
fn settings_live_below_the_home_directory() {
    let home = PathBuf::from("/home/u");
    assert_eq!(ConfigStore::config_dir_in(Some(home.clone())).unwrap(), home.join(".pulse"));
    assert_eq!(
        ConfigStore::config_path_in(Some(home.clone())).unwrap(),
        home.join(".pulse").join("config.toml")
    );
    assert!(ConfigStore::config_path_in(None).is_err());
}

#[test]
fn keys_are_masked() {
    assert_eq!(mask_key(""), "(empty)");
    assert_eq!(mask_key("ab"), "ab***");
    assert_eq!(mask_key("abcd"), "abcd***");
    assert_eq!(mask_key("abcdefgh"), "abcd***");
    assert_eq!(mask_key("äöüßxyz"), "äöüß***");
}

#[test]
fn numbers_and_lists_are_written_out() {
    assert_eq!(decimal_text(0), "0");
    assert_eq!(decimal_text(7), "7");
    assert_eq!(decimal_text(10), "10");
    assert_eq!(decimal_text(1234567890), "1234567890");
    assert_eq!(join_texts(&vec![], ", "), "");
    assert_eq!(join_texts(&vec!["a".to_string()], ", "), "a");
    assert_eq!(join_texts(&vec!["a".to_string(), "b".to_string(), "c".to_string()], ", "), "a, b, c");
}

fn status(detected: bool, connected: bool, modified: bool, installed: usize) -> HookStatus {
    HookStatus {
        tool: "Host A",
        detected,
        connected,
        modified,
        path: Some(PathBuf::from("/p/s.json")),
        message: None,
        installed_hooks: installed,
        total_hooks: 10,
        installed_hook_names: (0..installed).map(|i| format!("E{}", i)).collect(),
    }
}

#[test]
fn connect_reports_each_outcome() {
    assert_eq!(
        connect_summary(&status(true, true, true, 10))[..1],
        ["- Host A: hooks installed (/p/s.json)".to_string()]
    );
    assert_eq!(
        connect_summary(&status(true, true, false, 10))[0],
        "- Host A: already connected (/p/s.json)"
    );
    let partial = connect_summary(&status(true, false, false, 2));
    assert_eq!(
        partial,
        vec![
            "- Host A: unable to inject hooks (/p/s.json)",
            "    2/10 hooks installed",
            "    E0, E1",
            "    Run `pulse connect` to install missing hooks",
        ]
    );
    let absent = HookStatus::not_detected("Host A", PathBuf::from("/p"));
    assert_eq!(
        connect_summary(&absent),
        vec!["- Host A: Tool not detected. Expected settings at /p"]
    );
    let mut silent = status(false, false, false, 0);
    silent.message = None;
    assert_eq!(connect_summary(&silent), vec!["- Host A: Tool not detected on this machine"]);
}

#[test]
fn disconnect_and_status_report_each_outcome() {
    assert_eq!(
        disconnect_summary(&status(true, true, false, 10)),
        "- Host A: hooks still present (/p/s.json)"
    );
    assert_eq!(
        disconnect_summary(&status(true, false, true, 0)),
        "- Host A: hooks removed (/p/s.json)"
    );
    assert_eq!(
        disconnect_summary(&status(true, false, false, 0)),
        "- Host A: no hooks to remove (/p/s.json)"
    );
    assert_eq!(hook_status_line(&status(true, true, false, 10)), "  - Host A: connected (/p/s.json)");
    assert_eq!(
        hook_status_line(&status(true, false, false, 1)),
        "  - Host A: disconnected (/p/s.json)"
    );
    let mut bare = status(true, false, false, 0);
    bare.path = None;
    assert_eq!(hook_status_line(&bare), "  - Host A: disconnected");
}

#[test]
fn one_connected_target_is_enough() {
    assert!(!some_connected(&vec![]));
    assert!(!some_connected(&vec![status(true, false, false, 1), status(false, true, false, 0)]));
    assert!(some_connected(&vec![status(true, false, false, 1), status(true, true, false, 10)]));
}

#[test]
fn server_answers_are_brought_on_one_line() {
    assert_eq!(compact_body("  a \n\t b   c  "), "a b c");
    assert_eq!(compact_body(""), "");
    assert_eq!(compact_body(" \n "), "");
    let long = "x".repeat(300);
    assert_eq!(compact_body(&long), format!("{}...", "x".repeat(240)));
    let exact = "y".repeat(240);
    assert_eq!(compact_body(&exact), exact);
    let wide = "é".repeat(130);
    assert_eq!(compact_body(&wide), format!("{}...", "é".repeat(120)));
    let odd = format!("a{}", "é".repeat(130));
    assert_eq!(compact_body(&odd), format!("a{}...", "é".repeat(119)));
}

#[test]
fn keys_are_shown_in_part() {
    assert_eq!(format_api_key_for_display(" secret ", true), " secret ");
    assert_eq!(format_api_key_for_display("   ", false), "(empty)");
    assert_eq!(format_api_key_for_display("short-key-12", false), "(hidden)");
    assert_eq!(format_api_key_for_display(" pk_0123456789abcdef \n", false), "pk_01234...cdef");
    assert_eq!(format_api_key_for_display("0123456789abc", false), "01234567...9abc");
    assert_eq!(format_api_key_for_display("0123456é89abcdef", false), "(hidden)");
}

#[test]
fn session_cookie_is_found_in_a_header() {
    assert_eq!(
        extract_cookie_pair("better-auth.session_token=abc.def; Path=/; HttpOnly").as_deref(),
        Some("better-auth.session_token=abc.def")
    );
    assert_eq!(
        extract_cookie_pair("other=1, better-auth.session_token=xyz ;Secure").as_deref(),
        Some("better-auth.session_token=xyz")
    );
    assert_eq!(
        extract_cookie_pair("better-auth.session_token=").as_deref(),
        Some("better-auth.session_token=")
    );
    assert_eq!(extract_cookie_pair("better-auth.session_data=abc; Path=/"), None);
    assert_eq!(extract_cookie_pair(""), None);
}

#[test]
fn project_is_found_by_its_name_without_whitespace() {
    let names = vec![" Other ".to_string(), "Pulse Project\n".to_string(), "Pulse Project".to_string()];
    assert_eq!(find_project(&names, "  Pulse Project"), Some(1));
    assert_eq!(find_project(&names, "Other"), Some(0));
    assert_eq!(find_project(&names, "pulse project"), None);
    assert_eq!(find_project(&vec![], "x"), None);
}

#[test]
fn waiting_ends_after_the_limit_not_at_it() {
    assert_eq!(wait_step(0, 30_000), WaitStep::Probe);
    assert_eq!(wait_step(30_000, 30_000), WaitStep::Probe);
    assert_eq!(wait_step(30_001, 30_000), WaitStep::GiveUp);
    assert_eq!(waited(29_500, 500), 30_000);
    assert_eq!(waited(u64::MAX - 1, 500), u64::MAX);
}

#[test]
fn current_settings_live_in_the_settings_directory() {
    if let (Ok(dir), Ok(file)) = (ConfigStore::config_dir(), ConfigStore::config_path()) {
        assert!(dir.ends_with(".pulse"));
        assert_eq!(file, dir.join("config.toml"));
        assert_ne!(dir, PathBuf::new());
    }
}

#[test]
fn only_this_machine_is_a_local_host() {
    assert!(pulse::http::is_local_host(Some("localhost")));
    assert!(pulse::http::is_local_host(Some("127.0.0.1")));
    assert!(pulse::http::is_local_host(Some("::1")));
    assert!(!pulse::http::is_local_host(Some("localhost.example.com")));
    assert!(!pulse::http::is_local_host(Some("")));
    assert!(!pulse::http::is_local_host(None));
}
