use deltaforge::creation::validate_name;
use deltaforge::paths::{display_path, is_safe_relative_path};
use deltaforge::registry::project_id;

#[test]
fn names_reject_traversal_separators_and_reserved_words() {
    assert!(validate_name("flashindex-rust").is_ok());
    assert!(validate_name("my_project2").is_ok());
    assert!(validate_name("..").is_err());
    assert!(validate_name("../escape").is_err());
    assert!(validate_name("a/b").is_err());
    assert!(validate_name("a\\b").is_err());
    assert!(validate_name(".hidden").is_err());
    assert!(validate_name("").is_err());
    assert!(validate_name("   ").is_err());
    assert!(validate_name("CON").is_err());
    assert!(validate_name("nul").is_err());
    assert!(validate_name(&"a".repeat(64 + 1)).is_err());
    assert!(validate_name(&"a".repeat(64)).is_ok());
}

#[test]
fn display_path_strips_extended_length_windows_prefixes() {
    assert_eq!(
        display_path(r"\\?\C:\Users\learner\ws\project"),
        r"C:\Users\learner\ws\project"
    );
    assert_eq!(
        display_path(r"\\?\UNC\server\share\project"),
        r"\\server\share\project"
    );
}

#[test]
fn display_path_leaves_ordinary_paths_alone() {
    assert_eq!(
        display_path("/home/learner/ws/project"),
        "/home/learner/ws/project"
    );
    assert_eq!(display_path(r"C:\Users\learner"), r"C:\Users\learner");
}

#[test]
fn safe_relative_paths_are_portable() {
    assert!(is_safe_relative_path("fixtures/basic/input.txt"));
    assert!(!is_safe_relative_path("../escape"));
    assert!(!is_safe_relative_path("..\\escape"));
    assert!(!is_safe_relative_path("fixtures/./input.txt"));
    assert!(!is_safe_relative_path("C:\\escape"));
    assert!(!is_safe_relative_path(""));
}

#[test]
fn project_ids_are_stable_and_path_specific() {
    let first = project_id("/tmp/example/flashindex");
    assert_eq!(first, project_id("/tmp/example/flashindex"));
    assert_ne!(first, project_id("/tmp/other/flashindex"));
    assert!(first.starts_with("flashindex-"));
}
