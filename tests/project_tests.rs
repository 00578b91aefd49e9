use workbench_core::hidden::{
    check_hidden_projects, hide_project, purge_hidden, read_hidden_list, resolve_project_dir, unhide_project,
    visible_names, write_hidden_list, ProjectDir, RestoreError,
};
use workbench_core::projects::{merge_projects, prefer_id, Project};

fn project(id: &str, path: &str, sessions: &[&str], t: u64) -> Project {
    Project {
        id: id.to_string(),
        path: path.to_string(),
        sessions: sessions.iter().map(|s| s.to_string()).collect(),
        created_at: t,
    }
}

fn sorted(v: &[String]) -> Vec<String> {
    let mut w = v.to_vec();
    w.sort();
    w
}

#[test]
fn deduplicated_listing_merges_buckets() {
    let all = vec![
        project("-users-alice-proj", "/Users/alice/proj", &["b", "c"], 20),
        project("-Users-alice-proj", "/Users/alice/proj", &["a", "b"], 10),
    ];
    let r = merge_projects(all);
    assert_eq!(r.len(), 1);
    assert_eq!(r[0].path, "/Users/alice/proj");
    assert_eq!(sorted(&r[0].sessions), vec!["a", "b", "c"]);
    assert_eq!(r[0].sessions.len(), 3);
    assert_eq!(r[0].created_at, 20);
    assert_eq!(r[0].id, "-Users-alice-proj");
}

#[test]
fn merge_keeps_mixed_case_id_in_either_order() {
    let all = vec![
        project("-Users-alice-proj", "/Users/alice/proj", &["a"], 10),
        project("-users-alice-proj", "/users/alice/proj", &["b"], 5),
    ];
    let r = merge_projects(all);
    assert_eq!(r.len(), 1);
    assert_eq!(r[0].id, "-Users-alice-proj");
    assert_eq!(r[0].created_at, 10);
}

#[test]
fn merge_orders_by_latest_activity() {
    let all = vec![
        project("-a", "/a", &["1"], 5),
        project("-b", "/b", &["2"], 50),
        project("-c", "/c", &["3"], 20),
        project("-A", "/A", &["4"], 60),
    ];
    let r = merge_projects(all);
    let ids: Vec<&str> = r.iter().map(|p| p.id.as_str()).collect();
    assert_eq!(ids, vec!["-A", "-b", "-c"]);
    assert_eq!(r[0].created_at, 60);
    assert_eq!(sorted(&r[0].sessions), vec!["1", "4"]);
}

#[test]
fn merge_drops_repeated_sessions() {
    let r = merge_projects(vec![project("-x", "/x", &["s", "s", "t"], 1)]);
    assert_eq!(r[0].sessions, vec!["s", "t"]);
}

#[test]
fn merge_of_nothing_is_nothing() {
    assert!(merge_projects(vec![]).is_empty());
}

#[test]
fn prefer_id_rules() {
    assert!(prefer_id("-a-b", "-a--b"));
    assert!(!prefer_id("-a--b", "-a-b"));
    assert!(prefer_id("-a-b", "-a--"));
    assert!(!prefer_id("-a--", "-a-b"));
    assert!(prefer_id("-Ab", "-ab"));
    assert!(!prefer_id("-ab", "-Ab"));
    assert!(!prefer_id("-ab", "-ab"));
    assert!(!prefer_id("-A--b", "-a-bc"));
    assert!(prefer_id("-A--b", "-a--b"));
}

#[test]
fn hide_adds_once() {
    let mut h = vec!["x".to_string()];
    assert!(hide_project(&mut h, "y"));
    assert!(!hide_project(&mut h, "y"));
    assert_eq!(h, vec!["x", "y"]);
}

#[test]
fn unhide_removes_first_entry() {
    let mut h = vec!["x".to_string(), "y".to_string(), "x".to_string()];
    assert!(unhide_project(&mut h, "x").is_ok());
    assert_eq!(h, vec!["y", "x"]);
    assert!(matches!(unhide_project(&mut h, "z"), Err(RestoreError::NotHidden)));
    assert_eq!(h, vec!["y", "x"]);
}

#[test]
fn purge_removes_both_ids() {
    let mut h = vec!["a".to_string(), "b".to_string(), "c".to_string(), "a".to_string()];
    assert!(purge_hidden(&mut h, "a", "c"));
    assert_eq!(h, vec!["b"]);
    assert!(!purge_hidden(&mut h, "q", "r"));
}

#[test]
fn hidden_list_file_text() {
    assert_eq!(read_hidden_list(Some("[\"a\",\"b\"]".to_string())), vec!["a", "b"]);
    assert!(read_hidden_list(Some("not json".to_string())).is_empty());
    assert!(read_hidden_list(None).is_empty());
    let ids = vec!["-p-q".to_string(), "-r".to_string()];
    let text = write_hidden_list(&ids);
    assert!(text.contains("-p-q"));
    assert_eq!(read_hidden_list(Some(text)), ids);
}

fn dir(name: &str, path: &str) -> ProjectDir {
    ProjectDir { name: name.to_string(), path: path.to_string() }
}

#[test]
fn resolve_by_name_then_by_path() {
    let dirs = vec![dir("-Users-me-app", "/Users/me/app"), dir("-srv", "/srv")];
    assert_eq!(resolve_project_dir("-srv", &dirs), Some("-srv".to_string()));
    assert_eq!(resolve_project_dir("-users-me-app", &dirs), Some("-Users-me-app".to_string()));
    assert_eq!(resolve_project_dir("-gone", &dirs), None);
}

#[test]
fn hidden_list_heals_itself() {
    let dirs = vec![dir("-Users-me-app", "/Users/me/app"), dir("-srv", "/srv")];
    let hidden = vec!["-srv".to_string(), "-gone".to_string(), "-users-me-app".to_string()];
    let r = check_hidden_projects(&hidden, &dirs);
    assert_eq!(r.hidden, vec!["-srv", "-Users-me-app"]);
    assert_eq!(r.kept, vec!["-srv", "-users-me-app"]);
    assert!(r.changed);
    for id in &r.kept {
        assert!(resolve_project_dir(id, &dirs).is_some());
    }
    let again = check_hidden_projects(&r.kept, &dirs);
    assert!(!again.changed);
}

#[test]
fn hidden_directories_leave_the_listing() {
    let names = vec!["-a".to_string(), "-b".to_string(), "-c".to_string()];
    let hidden = vec!["-b".to_string(), "-zz".to_string()];
    assert_eq!(visible_names(&names, &hidden), vec!["-a", "-c"]);
}
