use cargo_vanish::is_hidden;
use cargo_vanish::path::{
    artifact_dir_of, file_name_of, is_manifest_name, names_manifest, parent_name_of, parent_of,
    visits,
};

#[test]
fn file_name_is_what_follows_the_last_separator() {
    assert_eq!(file_name_of("a/b/Cargo.toml"), "Cargo.toml");
    assert_eq!(file_name_of("Cargo.toml"), "Cargo.toml");
    assert_eq!(file_name_of("/Cargo.toml"), "Cargo.toml");
    assert_eq!(file_name_of("a/b/"), "");
    assert_eq!(file_name_of(""), "");
    assert_eq!(file_name_of("/höme/über/Cargo.toml"), "Cargo.toml");
}

#[test]
fn manifest_paths_end_in_the_manifest_name() {
    assert!(names_manifest("Cargo.toml"));
    assert!(names_manifest("/home/me/project/Cargo.toml"));
    assert!(names_manifest("./Cargo.toml"));
    assert!(!names_manifest("/home/me/project/Cargo.lock"));
    assert!(!names_manifest("/home/me/project/cargo.toml"));
    assert!(!names_manifest("/home/me/project/xCargo.toml"));
    assert!(!names_manifest("/home/me/project/Cargo.toml/"));
    assert!(!names_manifest("/home/me/project/Cargo.toml.orig"));
    assert!(!names_manifest(""));
}

#[test]
fn parent_is_the_directory_of_the_entry() {
    assert_eq!(parent_of("a/b/Cargo.toml"), "a/b");
    assert_eq!(parent_of("/a/Cargo.toml"), "/a");
    assert_eq!(parent_of("/Cargo.toml"), "/");
    assert_eq!(parent_of("Cargo.toml"), "");
    assert_eq!(parent_of("./Cargo.toml"), ".");
    assert_eq!(parent_of("a//Cargo.toml"), "a");
    assert_eq!(parent_of("a///b//Cargo.toml"), "a///b");
    assert_eq!(parent_of("//Cargo.toml"), "/");
}

#[test]
fn parent_name_is_the_last_component_of_the_parent() {
    assert_eq!(parent_name_of("a/b/Cargo.toml"), Some("b".to_string()));
    assert_eq!(parent_name_of("/home/me/tool/Cargo.toml"), Some("tool".to_string()));
    assert_eq!(parent_name_of("tool/Cargo.toml"), Some("tool".to_string()));
    assert_eq!(parent_name_of(".hidden/Cargo.toml"), Some(".hidden".to_string()));
    assert_eq!(parent_name_of("a/.../Cargo.toml"), Some("...".to_string()));
    assert_eq!(parent_name_of("a//Cargo.toml"), Some("a".to_string()));
    assert_eq!(parent_name_of("/x/a///Cargo.toml"), Some("a".to_string()));
}

#[test]
fn parent_name_is_missing_where_the_path_does_not_tell_it() {
    assert_eq!(parent_name_of("Cargo.toml"), None);
    assert_eq!(parent_name_of("/Cargo.toml"), None);
    assert_eq!(parent_name_of("./Cargo.toml"), None);
    assert_eq!(parent_name_of("../Cargo.toml"), None);
    assert_eq!(parent_name_of("a/../Cargo.toml"), None);
    assert_eq!(parent_name_of("//Cargo.toml"), None);
}

#[test]
fn artifact_directory_lies_next_to_the_manifest() {
    assert_eq!(artifact_dir_of("a/b/Cargo.toml"), "a/b/target/");
    assert_eq!(artifact_dir_of("/Cargo.toml"), "/target/");
    assert_eq!(artifact_dir_of("Cargo.toml"), "target/");
}

#[test]
fn hidden_names_start_with_a_dot() {
    assert!(is_hidden(Some(".git")));
    assert!(is_hidden(Some(".")));
    assert!(is_hidden(Some("..")));
    assert!(!is_hidden(Some("src")));
    assert!(!is_hidden(Some("a.b")));
    assert!(!is_hidden(Some("")));
    assert!(!is_hidden(None));
}

#[test]
fn manifest_name_is_matched_exactly() {
    assert!(is_manifest_name(Some("Cargo.toml")));
    assert!(!is_manifest_name(Some("cargo.toml")));
    assert!(!is_manifest_name(Some("Cargo.toml ")));
    assert!(!is_manifest_name(Some("Cargo.tom")));
    assert!(!is_manifest_name(Some("")));
    assert!(!is_manifest_name(None));
}

#[test]
fn the_root_of_a_scan_is_always_visited() {
    assert!(visits(0, Some(".config"), false));
    assert!(visits(0, Some("."), false));
    assert!(visits(0, None, false));
}

#[test]
fn hidden_entries_below_the_root_are_passed_over() {
    assert!(!visits(1, Some(".git"), false));
    assert!(!visits(7, Some(".cargo"), false));
    assert!(visits(1, Some("src"), false));
    assert!(visits(3, None, false));
}

#[test]
fn hidden_entries_are_visited_when_included() {
    assert!(visits(1, Some(".git"), true));
    assert!(visits(2, Some("src"), true));
}

#[test]
fn a_scan_without_hidden_entries_reaches_no_path_through_one() {
    let reached = |names: &[&str], include_hidden: bool| {
        names
            .iter()
            .enumerate()
            .all(|(i, name)| visits(i + 1, Some(name), include_hidden))
    };
    assert!(reached(&["a", "b", "Cargo.toml"], false));
    assert!(!reached(&["a", ".b", "Cargo.toml"], false));
    assert!(!reached(&[".a", "b", "Cargo.toml"], false));
    assert!(reached(&["a", ".b", "Cargo.toml"], true));
}
