//! Locator rules: the metadata-file name filter and the root directories.

use mime_pick::locate::{is_metadata_file_name, root_directories};

#[test]
fn plain_metadata_names_match() {
    assert!(is_metadata_file_name("editor.desktop"));
    assert!(is_metadata_file_name("a.b.desktop"));
}

#[test]
fn hidden_or_foreign_names_do_not_match() {
    assert!(!is_metadata_file_name(".desktop"));
    assert!(!is_metadata_file_name("editor.txt"));
    assert!(!is_metadata_file_name("desktop"));
    assert!(!is_metadata_file_name(""));
    assert!(!is_metadata_file_name("editor.desktop.bak"));
}

#[test]
fn roots_without_home_hold_only_the_system_directory() {
    let roots = root_directories(None);
    assert_eq!(roots, vec!["/usr/share/applications/".to_string()]);
}

#[test]
fn roots_with_home_add_the_user_directory() {
    let home = "/home/operator".to_string();
    let roots = root_directories(Some(&home));
    assert_eq!(
        roots,
        vec![
            "/usr/share/applications/".to_string(),
            "/home/operator/.local/share/applications/".to_string(),
        ]
    );
}

#[test]
fn home_with_trailing_separator_is_not_doubled() {
    let home = "/home/operator/".to_string();
    let roots = root_directories(Some(&home));
    assert_eq!(roots[1], "/home/operator/.local/share/applications/");
}
