use workbench_core::codec::{decode_project_path, encode_project_path, normalize_lowered, normalize_path_for_comparison};

#[test]
fn encode_unix_path() {
    assert_eq!(encode_project_path("/Users/alice/proj"), "-Users-alice-proj");
}

#[test]
fn encode_windows_path_replaces_colon() {
    assert_eq!(encode_project_path("C:\\Users\\bob"), "C--Users-bob");
    assert_eq!(encode_project_path("a:"), "a-");
}

#[test]
fn decode_turns_dashes_into_slashes() {
    assert_eq!(decode_project_path("-Users-alice-proj"), "/Users/alice/proj");
    assert_eq!(decode_project_path("-Users-me-jsonl-viewer"), "/Users/me/jsonl/viewer");
}

#[test]
fn normalize_lowercases_and_trims_slashes() {
    assert_eq!(normalize_path_for_comparison("/Users/Alice/Proj/"), "users/alice/proj");
    assert_eq!(normalize_path_for_comparison("/"), "");
    assert_eq!(normalize_path_for_comparison(""), "");
}

#[test]
fn normalize_windows_drive_and_prefix() {
    assert_eq!(normalize_path_for_comparison("C:\\Users\\Alice\\"), "c/users/alice");
    assert_eq!(normalize_path_for_comparison("\\\\?\\C:\\Work"), "c/work");
    assert_eq!(normalize_path_for_comparison("D:"), "d");
    assert_eq!(normalize_path_for_comparison("D:\\"), "d");
}

#[test]
fn normalize_equates_spellings() {
    assert_eq!(
        normalize_path_for_comparison("C:/Users/ALICE"),
        normalize_path_for_comparison("c:\\users\\alice\\")
    );
}

#[test]
fn codec_round_trip_keeps_normal_form() {
    for p in ["/Users/alice/proj", "/srv/data/x", "relative/dir"] {
        let back = decode_project_path(&encode_project_path(p));
        assert_eq!(normalize_path_for_comparison(&back), normalize_path_for_comparison(p));
    }
}

#[test]
fn codec_round_trip_loses_dashes() {
    let p = "/home/me/my-app";
    let back = decode_project_path(&encode_project_path(p));
    assert_ne!(normalize_path_for_comparison(&back), normalize_path_for_comparison(p));
}

#[test]
fn normal_form_of_lowered_paths() {
    assert_eq!(normalize_lowered("\\\\?\\c:\\work\\"), "c/work");
    assert_eq!(normalize_lowered("/users/a/"), "users/a");
    assert_eq!(normalize_lowered("c:/"), "c");
    assert_eq!(normalize_lowered("x:"), "x");
    assert_eq!(normalize_lowered("a:b"), "a:b");
    assert_eq!(normalize_lowered("/Users/A"), "Users/A");
}
