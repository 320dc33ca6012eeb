use holdem_core::files::{
    add_metadata, clear_metadata, make_metadata, remove_metadata, remove_metadata_by_path,
    rename_metadata, retain_existing, FileInfo, FileStore,
};

fn info(id: u64, path: &str) -> FileInfo {
    FileInfo {
        id,
        path: path.to_string(),
        name: path.to_string(),
        size: 1,
        is_directory: false,
    }
}

#[test]
fn metadata_from_plain_file() {
    let m = make_metadata(7, "C:\\Users\\docs\\report.txt", 123, false);
    assert_eq!(m.id, 7);
    assert_eq!(m.size, 123);
    assert_eq!(m.name, "report.txt");
    assert_eq!(m.file_type, "txt");
    assert_eq!(m.path, "C:\\Users\\docs\\report.txt");
}

#[test]
fn metadata_from_directory() {
    let m = make_metadata(1, "/home/user/projects", 0, true);
    assert_eq!(m.name, "projects");
    assert_eq!(m.file_type, "folder");
}

#[test]
fn metadata_without_extension() {
    let m = make_metadata(2, "/tmp/README", 10, false);
    assert_eq!(m.name, "README");
    assert_eq!(m.file_type, "unknown");
}

#[test]
fn metadata_hidden_file_has_no_extension() {
    let m = make_metadata(3, "/home/user/.bashrc", 10, false);
    assert_eq!(m.name, ".bashrc");
    assert_eq!(m.file_type, "unknown");
}

#[test]
fn add_deduplicates_by_path() {
    let mut list = Vec::new();
    let a = make_metadata(0, "/a/x.png", 5, false);
    let b = make_metadata(1, "/a/y.png", 6, false);
    let a_again = make_metadata(2, "/a/x.png", 5, false);
    assert!(add_metadata(&mut list, a));
    assert!(add_metadata(&mut list, b));
    assert!(!add_metadata(&mut list, a_again));
    assert_eq!(list.len(), 2);
}

#[test]
fn remove_by_id() {
    let mut list = Vec::new();
    add_metadata(&mut list, make_metadata(0, "/a", 1, false));
    add_metadata(&mut list, make_metadata(1, "/b", 1, false));
    assert!(remove_metadata(&mut list, 0));
    assert_eq!(list.len(), 1);
    assert_eq!(list[0].id, 1);
    assert!(!remove_metadata(&mut list, 0));
}

#[test]
fn rename_by_id() {
    let mut list = Vec::new();
    add_metadata(&mut list, make_metadata(0, "/a/old.txt", 1, false));
    assert!(rename_metadata(&mut list, 0, "new.txt".to_string()));
    assert_eq!(list[0].name, "new.txt");
    assert_eq!(list[0].path, "/a/old.txt");
    assert!(!rename_metadata(&mut list, 9, "x".to_string()));
}

#[test]
fn retain_drops_vanished_files() {
    let mut list = Vec::new();
    add_metadata(&mut list, make_metadata(0, "/a", 1, false));
    add_metadata(&mut list, make_metadata(1, "/b", 1, false));
    add_metadata(&mut list, make_metadata(2, "/c", 1, false));
    let keep = vec![true, false, true];
    assert!(retain_existing(&mut list, &keep));
    assert_eq!(list.len(), 2);
    assert_eq!(list[0].id, 0);
    assert_eq!(list[1].id, 2);
    let keep = vec![true, true];
    assert!(!retain_existing(&mut list, &keep));
}

#[test]
fn store_add_and_list() {
    let mut store = FileStore::new();
    assert!(store.add_file(info(10, "/x")));
    assert!(store.add_file(info(11, "/y")));
    assert!(!store.add_file(info(12, "/x")));
    let all = store.get_stored_files();
    assert_eq!(all.len(), 2);
    assert_eq!(all[0].id, 10);
    assert_eq!(all[1].id, 11);
}

#[test]
fn store_remove_all_matches() {
    let mut store = FileStore::new();
    store.add_file(info(1, "/a"));
    store.add_file(info(2, "/b"));
    store.add_file(info(1, "/c"));
    store.remove_file(1);
    let all = store.get_stored_files();
    assert_eq!(all.len(), 1);
    assert_eq!(all[0].id, 2);
}

#[test]
fn store_rename_first_match() {
    let mut store = FileStore::new();
    store.add_file(info(1, "/a"));
    assert!(store.rename_file(1, "renamed".to_string()));
    assert_eq!(store.get_stored_files()[0].name, "renamed");
    assert!(!store.rename_file(5, "nope".to_string()));
}

#[test]
fn drag_payload_keeps_store_order() {
    let mut store = FileStore::new();
    store.add_file(info(1, "/a"));
    store.add_file(info(2, "/b"));
    store.add_file(info(3, "/c"));
    let paths = store.paths_for_ids(&vec![3, 1]);
    assert_eq!(paths, vec!["/a".to_string(), "/c".to_string()]);
    let none = store.paths_for_ids(&vec![9]);
    assert!(none.is_empty());
}

#[test]
fn remove_by_vanished_path() {
    let mut list = Vec::new();
    add_metadata(&mut list, make_metadata(0, "/a/x.png", 5, false));
    add_metadata(&mut list, make_metadata(1, "/a/y.png", 6, false));
    assert!(remove_metadata_by_path(&mut list, "/a/x.png"));
    assert_eq!(list.len(), 1);
    assert_eq!(list[0].id, 1);
    assert!(!remove_metadata_by_path(&mut list, "/a/x.png"));
    clear_metadata(&mut list);
    assert!(list.is_empty());
}

#[test]
fn trailing_dot_gives_empty_extension() {
    let m = make_metadata(4, "/tmp/archive.", 1, false);
    assert_eq!(m.name, "archive.");
    assert_eq!(m.file_type, "");
}
