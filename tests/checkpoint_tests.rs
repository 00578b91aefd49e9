use workbench_core::checkpoint::ManagerRegistry;
use workbench_core::checkpoint::{
    count_lines, diff_snapshots, parse_restore_mode, parse_strategy, session_text, CheckpointError, CheckpointManager,
    CheckpointStrategy, FileSnapshot, MessageKind, RestoreMode,
};

fn lines(v: &[&str]) -> Vec<String> {
    v.iter().map(|s| s.to_string()).collect()
}

fn snap(path: &str, hash: &str, content: &str) -> FileSnapshot {
    FileSnapshot { path: path.to_string(), hash: hash.to_string(), content: content.to_string() }
}

fn manager() -> CheckpointManager {
    CheckpointManager::new("proj".to_string(), "sess".to_string())
}

#[test]
fn restore_conversation_only_brings_back_tracked_lines() {
    let mut m = manager();
    m.track_session_messages(lines(&["L1\n", "L2\n", "L3\n"]));
    m.track_file(snap("a.rs", "h1", "fn a() {}\n"));
    let c = m.create_checkpoint("c1".to_string(), 100, Some("x".to_string()), None, 7).unwrap();
    assert_eq!(c.message_count, 3);
    assert_eq!(c.parent_id, None);
    m.track_message("L4\n".to_string());
    m.track_file(snap("a.rs", "h2", "changed\n"));
    let out = m.restore_checkpoint("c1", RestoreMode::ConversationOnly).unwrap();
    assert_eq!(out.session_text, Some("L1\nL2\nL3\n".to_string()));
    assert_eq!(m.messages, lines(&["L1\n", "L2\n", "L3\n"]));
    assert!(out.files.is_empty());
    assert_eq!(m.files[0].hash, "h2");
    assert_eq!(m.current, Some("c1".to_string()));
}

#[test]
fn restore_both_writes_concatenated_lines_and_files() {
    let mut m = manager();
    m.track_message("{\"a\":1}\n".to_string());
    m.track_message("{\"b\":2}\n".to_string());
    m.track_file(snap("f.txt", "h1", "one\n"));
    m.create_checkpoint("c1".to_string(), 5, None, None, 0).unwrap();
    m.track_message("{\"c\":3}\n".to_string());
    m.track_file(snap("f.txt", "h9", "nine\n"));
    let out = m.restore_checkpoint("c1", RestoreMode::Both).unwrap();
    assert_eq!(out.session_text.unwrap(), "{\"a\":1}\n{\"b\":2}\n");
    assert_eq!(out.files.len(), 1);
    assert_eq!(out.files[0].content, "one\n");
    assert_eq!(m.files[0].hash, "h1");
}

#[test]
fn restore_code_only_keeps_messages() {
    let mut m = manager();
    m.track_message("x\n".to_string());
    m.track_file(snap("f", "h1", "1"));
    m.create_checkpoint("c1".to_string(), 5, None, None, 0).unwrap();
    m.track_message("y\n".to_string());
    let out = m.restore_checkpoint("c1", RestoreMode::CodeOnly).unwrap();
    assert!(out.session_text.is_none());
    assert_eq!(m.messages.len(), 2);
}

#[test]
fn unknown_checkpoint_is_not_found() {
    let mut m = manager();
    assert!(matches!(m.restore_checkpoint("nope", RestoreMode::Both), Err(CheckpointError::NotFound)));
    assert!(matches!(m.get_checkpoint_diff("a", "b"), Err(CheckpointError::NotFound)));
}

#[test]
fn duplicate_checkpoint_id_is_refused() {
    let mut m = manager();
    m.create_checkpoint("c1".to_string(), 1, None, None, 0).unwrap();
    assert!(matches!(m.create_checkpoint("c1".to_string(), 2, None, None, 0), Err(CheckpointError::DuplicateId)));
    assert_eq!(m.store.len(), 1);
}

#[test]
fn second_checkpoint_has_first_as_parent() {
    let mut m = manager();
    m.create_checkpoint("c1".to_string(), 1, None, None, 0).unwrap();
    let c2 = m.create_checkpoint("c2".to_string(), 2, None, None, 0).unwrap();
    assert_eq!(c2.parent_id, Some("c1".to_string()));
}

#[test]
fn diff_of_checkpoint_with_itself_is_empty() {
    let mut m = manager();
    m.track_file(snap("a", "h1", "x\ny\n"));
    m.track_file(snap("b", "h2", "z"));
    m.create_checkpoint("c1".to_string(), 1, None, None, 42).unwrap();
    let d = m.get_checkpoint_diff("c1", "c1").unwrap();
    assert!(d.modified_files.is_empty());
    assert!(d.added_files.is_empty());
    assert!(d.deleted_files.is_empty());
    assert_eq!(d.token_delta, 0);
}

#[test]
fn diff_reports_modified_added_deleted() {
    let mut m = manager();
    m.track_file(snap("keep", "k", "same"));
    m.track_file(snap("mod", "m1", "a\nb\n"));
    m.track_file(snap("old", "o", "gone"));
    m.create_checkpoint("c1".to_string(), 1, None, None, 100).unwrap();
    let mut m2 = manager();
    m2.track_file(snap("keep", "k", "same"));
    m2.track_file(snap("mod", "m2", "a\nb\nc"));
    m2.track_file(snap("new", "n", "fresh"));
    let (modified, added, deleted) = diff_snapshots(&m.files, &m2.files);
    assert_eq!(modified.len(), 1);
    assert_eq!(modified[0].path, "mod");
    assert_eq!(modified[0].additions, 3);
    assert_eq!(modified[0].deletions, 2);
    assert_eq!(added, vec!["new"]);
    assert_eq!(deleted, vec!["old"]);
    m.files = m2.files;
    m.create_checkpoint("c2".to_string(), 2, None, None, 70).unwrap();
    let d = m.get_checkpoint_diff("c1", "c2").unwrap();
    assert_eq!(d.token_delta, -30);
    assert_eq!(d.added_files, vec!["new"]);
}

#[test]
fn fork_points_at_source_checkpoint() {
    let mut m = manager();
    m.track_message("a\n".to_string());
    m.track_file(snap("f", "h", "c"));
    m.create_checkpoint("c1".to_string(), 10, None, None, 3).unwrap();
    m.track_message("b\n".to_string());
    let f = m.fork_from_checkpoint("c1", "sess2".to_string(), "c9".to_string(), 11, None).unwrap();
    assert_eq!(f.session_id, "sess2");
    assert_eq!(f.messages, lines(&["a\n"]));
    assert_eq!(f.store.len(), 1);
    assert_eq!(f.store[0].checkpoint.parent_id, Some("c1".to_string()));
    assert_eq!(f.store[0].checkpoint.session_id, "sess2");
    assert_eq!(f.current, Some("c9".to_string()));
    assert!(matches!(m.fork_from_checkpoint("zz", "s".to_string(), "c".to_string(), 1, None), Err(CheckpointError::NotFound)));
    assert!(matches!(
        m.fork_from_checkpoint("c1", "s".to_string(), "c1".to_string(), 1, None),
        Err(CheckpointError::DuplicateId)
    ));
}

#[test]
fn cleanup_keeps_most_recent() {
    let mut m = manager();
    for (i, t) in [5i64, 1, 4, 2, 3].iter().enumerate() {
        m.create_checkpoint(format!("c{}", i), *t, None, None, 0).unwrap();
    }
    let removed = m.cleanup_old_checkpoints(2);
    assert_eq!(removed, 3);
    let times: Vec<i64> = m.list_checkpoints().iter().map(|c| c.created_at).collect();
    assert_eq!(times, vec![4, 5]);
    assert_eq!(m.cleanup_old_checkpoints(10), 0);
    assert_eq!(m.store.len(), 2);
}

#[test]
fn cleanup_by_age_drops_old_ones() {
    let mut m = manager();
    let day = 86_400i64;
    let now = 100 * day;
    m.create_checkpoint("old".to_string(), now - 40 * day, None, None, 0).unwrap();
    m.create_checkpoint("edge".to_string(), now - 30 * day, None, None, 0).unwrap();
    m.create_checkpoint("new".to_string(), now - day, None, None, 0).unwrap();
    assert_eq!(m.cleanup_old_checkpoints_by_age(now, 30), 1);
    let ids: Vec<String> = m.list_checkpoints().iter().map(|c| c.id.clone()).collect();
    assert_eq!(ids, vec!["edge", "new"]);
}

#[test]
fn initial_load_respects_message_index() {
    let mut m = manager();
    m.load_initial_messages(lines(&["a", "b", "c", "d"]), Some(1));
    assert_eq!(m.messages, lines(&["a", "b"]));
    m.load_initial_messages(lines(&["x"]), None);
    assert_eq!(m.messages, lines(&["a", "b"]));
    let mut k = manager();
    k.load_initial_messages(lines(&["a", "b"]), Some(10));
    assert_eq!(k.messages.len(), 2);
}

#[test]
fn auto_checkpoint_strategies() {
    let mut m = manager();
    assert!(!m.should_auto_checkpoint(MessageKind::UserPrompt));
    m.update_settings(true, CheckpointStrategy::PerPrompt);
    assert!(m.should_auto_checkpoint(MessageKind::UserPrompt));
    assert!(!m.should_auto_checkpoint(MessageKind::ToolUse { mutates_files: true }));
    m.update_settings(true, CheckpointStrategy::PerToolUse);
    assert!(m.should_auto_checkpoint(MessageKind::ToolUse { mutates_files: false }));
    m.update_settings(true, CheckpointStrategy::Smart);
    assert!(m.should_auto_checkpoint(MessageKind::ToolUse { mutates_files: true }));
    assert!(!m.should_auto_checkpoint(MessageKind::ToolUse { mutates_files: false }));
    assert!(m.should_auto_checkpoint(MessageKind::UserPrompt));
    m.update_settings(false, CheckpointStrategy::Smart);
    assert!(!m.should_auto_checkpoint(MessageKind::UserPrompt));
}

#[test]
fn parse_modes_and_strategies() {
    assert_eq!(parse_restore_mode(None), Some(RestoreMode::Both));
    assert_eq!(parse_restore_mode(Some("conversation_only")), Some(RestoreMode::ConversationOnly));
    assert_eq!(parse_restore_mode(Some("code_only")), Some(RestoreMode::CodeOnly));
    assert_eq!(parse_restore_mode(Some("both")), Some(RestoreMode::Both));
    assert_eq!(parse_restore_mode(Some("all")), None);
    assert_eq!(parse_strategy("smart"), Some(CheckpointStrategy::Smart));
    assert_eq!(parse_strategy("per_tool_use"), Some(CheckpointStrategy::PerToolUse));
    assert_eq!(parse_strategy("sometimes"), None);
}

#[test]
fn line_counting() {
    assert_eq!(count_lines(""), 0);
    assert_eq!(count_lines("a"), 1);
    assert_eq!(count_lines("a\n"), 1);
    assert_eq!(count_lines("a\n\nb"), 3);
    assert_eq!(session_text(&lines(&["a", "b"])), "ab");
}

#[test]
fn one_manager_per_session() {
    let mut reg = ManagerRegistry::new();
    let a = reg.get_or_create("s1", "p");
    reg.managers[a].track_message("x\n".to_string());
    let b = reg.get_or_create("s2", "p");
    assert_ne!(a, b);
    let again = reg.get_or_create("s1", "p");
    assert_eq!(again, a);
    assert_eq!(reg.managers[again].messages.len(), 1);
    assert_eq!(reg.active_count(), 2);
    assert!(reg.remove("s1"));
    assert!(!reg.remove("s1"));
    assert_eq!(reg.active_count(), 1);
    assert_eq!(reg.find("s2"), Some(0));
}
