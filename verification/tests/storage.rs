use rust_todo::{resolve_storage_path, storage_path};
use std::path::PathBuf;

#[test]
fn list_file_lies_in_the_home_directory() {
    let place = resolve_storage_path(Some(PathBuf::from("/home/alice")));
    assert_eq!(place.path, PathBuf::from("/home/alice").join("todo_list"));
    assert_ne!(place.path, PathBuf::from("/home/alice"));
    assert!(!place.fell_back);
    assert_eq!(place.notice(), None);
}

#[test]
fn list_file_falls_back_to_the_current_directory() {
    let place = resolve_storage_path(None);
    assert_eq!(place.path, PathBuf::from("todo_list"));
    assert_eq!(place.path, PathBuf::new().join("todo_list"));
    assert!(place.path.is_relative());
    assert!(place.fell_back);
    assert_eq!(place.notice(), Some("could not find home directory, using curent location"));
}

#[test]
fn storage_path_goes_by_the_home_directory_of_the_user() {
    let place = storage_path();
    assert_eq!(place.path.file_name().and_then(|name| name.to_str()), Some("todo_list"));
    assert!(place == resolve_storage_path(dirs::home_dir()) || place == resolve_storage_path(None));
}
