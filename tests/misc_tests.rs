use workbench_core::sessions::synthetic_timestamp;
use workbench_core::hooks::{
    evaluate_condition, hook_timeout_secs, retries_after_failure, skips_hook, ConditionalTrigger, EnhancedHook,
    HookChainResult, HookEvent, HookExecutionResult,
};
use workbench_core::sessions::{
    extract_first_user_message, latest_activity, sort_sessions, stamp_field, strip_long_path_prefix,
    synthetic_offset_secs, EntryFields, Session, StampField,
};
use workbench_core::text::{is_white, lowercase, trim_str};
use workbench_core::version::{version_status, version_status_from};

#[test]
fn hook_conditions() {
    assert!(evaluate_condition("event == 'PreToolUse'", "PreToolUse", "s"));
    assert!(!evaluate_condition("event == 'PreToolUse'", "Stop", "s"));
    assert!(evaluate_condition("session_id == \"abc\"", "Stop", "abc"));
    assert!(evaluate_condition("  session_id==abc ", "Stop", "abc"));
    assert!(!evaluate_condition("data.tokens == 5", "Stop", "abc"));
    assert!(!evaluate_condition("event == a == b", "a", "s"));
    assert!(evaluate_condition("data.tokens > 100000", "x", "y"));
    assert!(evaluate_condition("", "x", "y"));
}

fn hook(cond: Option<(&str, bool)>, retry: Option<u32>, timeout: Option<u64>) -> EnhancedHook {
    EnhancedHook {
        command: "true".to_string(),
        timeout,
        retry,
        condition: cond.map(|(c, e)| ConditionalTrigger { condition: c.to_string(), enabled: e, priority: None }),
        on_success: None,
        on_failure: None,
    }
}

#[test]
fn hook_skips_retries_and_timeouts() {
    assert!(skips_hook(&hook(Some(("event == 'Stop'", true)), None, None), "PreToolUse", "s"));
    assert!(!skips_hook(&hook(Some(("event == 'Stop'", false)), None, None), "PreToolUse", "s"));
    assert!(!skips_hook(&hook(None, None, None), "PreToolUse", "s"));
    assert!(!retries_after_failure(&hook(None, None, None), 0));
    assert!(retries_after_failure(&hook(None, Some(2), None), 1));
    assert!(!retries_after_failure(&hook(None, Some(2), None), 2));
    assert_eq!(hook_timeout_secs(&hook(None, None, None)), 30);
    assert_eq!(hook_timeout_secs(&hook(None, None, Some(5))), 5);
}

fn result(ok: bool) -> HookExecutionResult {
    HookExecutionResult { success: ok, output: String::new(), error: None, execution_time_ms: 0, hook_command: "c".to_string() }
}

#[test]
fn pre_tool_use_failure_blocks() {
    let mut chain = HookChainResult::start(HookEvent::PreToolUse, 2);
    assert_eq!(chain.event, "PreToolUse");
    chain.add(HookEvent::PreToolUse, result(true));
    assert!(chain.should_continue);
    chain.add(HookEvent::PreToolUse, result(false));
    assert!(!chain.should_continue);
    assert_eq!((chain.successful, chain.failed, chain.results.len()), (1, 1, 2));
    let mut post = HookChainResult::start(HookEvent::PostToolUse, 1);
    post.add(HookEvent::PostToolUse, result(false));
    assert!(post.should_continue);
    assert_eq!(HookEvent::OnCheckpointRestore.as_str(), "OnCheckpointRestore");
}

#[test]
fn version_check_status() {
    let s = version_status("1.0.17 (Agent CLI)\n", "", true, false, "Agent CLI");
    assert!(s.is_installed);
    assert_eq!(s.version.as_deref(), Some("1.0.17"));
    assert_eq!(s.output, "1.0.17 (Agent CLI)");
    let f = version_status("2.3.4-beta.1+b5\n", "warn\n", false, true, "Agent CLI");
    assert!(!f.is_installed);
    assert_eq!(f.version.as_deref(), Some("2.3.4-beta.1+b5"));
    assert_eq!(f.output, "2.3.4-beta.1+b5\n\nwarn");
    let b = version_status("v9.8.7", "", true, true, "Agent CLI");
    assert!(b.is_installed);
    let n = version_status("command not understood", "", true, false, "Agent CLI");
    assert!(!n.is_installed && n.version.is_none());
    let u = version_status("9.9.9", "", true, false, "Agent CLI");
    assert!(!u.is_installed);
    let g = version_status_from("hello", "", true, true, "Agent CLI", Some("1.2.3".to_string()));
    assert!(g.is_installed);
}

fn entry(role: Option<&str>, content: Option<&str>, ts: Option<&str>) -> EntryFields {
    EntryFields {
        role: role.map(|s| s.to_string()),
        content: content.map(|s| s.to_string()),
        timestamp: ts.map(|s| s.to_string()),
    }
}

#[test]
fn first_user_message_skips_synthetic_lines() {
    let es = vec![
        entry(Some("assistant"), Some("hi"), Some("t0")),
        entry(Some("user"), Some("Caveat: The messages below were generated by the user while running local commands. x"), None),
        entry(Some("user"), Some("<command-name>/clear</command-name>"), None),
        entry(Some("user"), Some("<local-command-stdout>ok</local-command-stdout>"), None),
        entry(Some("user"), None, None),
        entry(Some("user"), Some("Fix the bug"), Some("t5")),
        entry(Some("user"), Some("later"), Some("t6")),
    ];
    let (m, t) = extract_first_user_message(&es);
    assert_eq!(m.as_deref(), Some("Fix the bug"));
    assert_eq!(t.as_deref(), Some("t5"));
    let mut head = es;
    head.truncate(5);
    let (none, nt) = extract_first_user_message(&head);
    assert!(none.is_none() && nt.is_none());
}

#[test]
fn session_helpers() {
    assert_eq!(strip_long_path_prefix("\\\\?\\C:\\w"), "C:\\w");
    assert_eq!(strip_long_path_prefix("/home/x"), "/home/x");
    assert_eq!(synthetic_offset_secs(3, 0), 10);
    assert_eq!(synthetic_offset_secs(3, 2), 0);
    assert_eq!(stamp_field("user"), StampField::SentAt);
    assert_eq!(stamp_field("assistant"), StampField::ReceivedAt);
    assert_eq!(stamp_field("whatever"), StampField::ReceivedAt);
    assert_eq!(latest_activity(10, &vec![5, 30, 20]), 30);
    assert_eq!(latest_activity(10, &vec![]), 10);
    assert_eq!(trim_str("\u{3000} wide\t"), "wide");
}

fn session(id: &str, t: u64) -> Session {
    Session {
        id: id.to_string(),
        project_id: "p".to_string(),
        project_path: "/p".to_string(),
        todo_data: None,
        created_at: t,
        first_message: None,
        message_timestamp: None,
    }
}

#[test]
fn sessions_newest_first() {
    let r = sort_sessions(vec![session("a", 1), session("b", 3), session("c", 2), session("d", 3)]);
    let ids: Vec<&str> = r.iter().map(|s| s.id.as_str()).collect();
    assert_eq!(ids, vec!["b", "d", "c", "a"]);
}

#[test]
fn synthetic_timestamps_are_spaced_back() {
    assert_eq!(synthetic_timestamp(1431648000, 1, 0).as_deref(), Some("2015-05-15T00:00:00+00:00"));
    assert_eq!(synthetic_timestamp(1431648000, 3, 0).as_deref(), Some("2015-05-14T23:59:50+00:00"));
    assert_eq!(synthetic_timestamp(i64::MIN, 2, 0), None);
}

#[test]
fn white_space_matches_std() {
    for u in 0..=0x10FFFFu32 {
        if let Some(c) = char::from_u32(u) {
            assert_eq!(is_white(c), c.is_whitespace(), "U+{:04X}", u);
        }
    }
    assert_eq!(lowercase("ABC-xyz_09"), "abc-xyz_09");
}
