use woodeye::matcher::{normalize_path, paths_match};
use woodeye::paths::{
    expand_tilde, get_claude_projects_dir, get_hooks_backup_path, get_names_file_path,
    get_status_file_path, session_key_for_path, status_file_name,
};

#[test]
fn normalize_strips_trailing_separators() {
    assert_eq!(normalize_path("/a/b/"), "/a/b");
    assert_eq!(normalize_path("/a//"), "/a");
    assert_eq!(normalize_path("/a/b"), "/a/b");
    assert_eq!(normalize_path("/"), "");
    assert_eq!(normalize_path(""), "");
}

#[test]
fn paths_match_is_exact_and_empty_never_matches() {
    assert!(paths_match("/a/b", "/a/b"));
    assert!(!paths_match("/a/b", "/a/c"));
    assert!(!paths_match("", ""));
    assert!(!paths_match("", "/a"));
    assert!(!paths_match("/a", ""));
}

#[test]
fn normalized_paths_with_trailing_slash_match() {
    let a = normalize_path("/a/b/");
    let b = normalize_path("/a/b");
    assert!(paths_match(a.as_str(), b.as_str()));
}

#[test]
fn session_key_is_the_sixteen_digit_byte_fold() {
    assert_eq!(session_key_for_path("/tmp/proj"), "000027739289aa84");
    assert_eq!(session_key_for_path("/home/user/work"), "27c9aec69c25c394");
}

#[test]
fn status_file_path_is_dir_key_json() {
    assert_eq!(
        get_status_file_path("/home/u/.woodeye-status", "/tmp/proj"),
        "/home/u/.woodeye-status/000027739289aa84.json"
    );
    assert_eq!(status_file_name("abc123"), "abc123.json");
}

#[test]
fn well_known_paths() {
    assert_eq!(get_names_file_path("/s"), "/s/names.json");
    assert_eq!(get_hooks_backup_path("/s"), "/s/hooks_backup.json");
    assert_eq!(get_claude_projects_dir("/home/u/cfg"), "/home/u/cfg/projects");
}

#[test]
fn tilde_expansion() {
    assert_eq!(expand_tilde("~/work", "/home/u"), "/home/u/work");
    assert_eq!(expand_tilde("/abs/path", "/home/u"), "/abs/path");
    assert_eq!(expand_tilde("relative", "/home/u"), "relative");
}
