use disk_reviewer::scanner::types::{DirNode, Entry, FileEntry};
use disk_reviewer::snapshot::storage::{snapshot_name_at, snapshot_rows};
use disk_reviewer::treemap::color::FileCategory;

#[test]
fn test_default_name_format() {
    let name = snapshot_name_at(&chrono::Local::now().format("%Y-%m-%d %H:%M").to_string());
    assert!(name.starts_with("快照 "), "default name should start with '快照 ' (D-18)");
    let ts = &name["快照 ".len()..];
    assert_eq!(ts.len(), 16, "timestamp portion should be 16 chars (YYYY-MM-DD HH:MM)");
    assert_eq!(&ts[4..5], "-");
    assert_eq!(&ts[7..8], "-");
    assert_eq!(&ts[10..11], " ");
    assert_eq!(&ts[13..14], ":");
}

#[test]
fn snapshot_name_at_prefixes_stamp() {
    assert_eq!(snapshot_name_at("2024-01-02 03:04"), "快照 2024-01-02 03:04");
}

#[test]
fn rows_list_every_directory_root_first() {
    let leaf = DirNode {
        path: r"C:\a\b\c".to_string(),
        name: "c".to_string(),
        total_size: 1,
        file_count: 1,
        children: vec![Entry::File(FileEntry { name: "f".to_string(), size: 1 })],
        access_denied: false,
        dominant_cat: FileCategory::Other,
    };
    let mid = DirNode {
        path: r"C:\a\b".to_string(),
        name: "b".to_string(),
        total_size: 1,
        file_count: 1,
        children: vec![Entry::Symlink(r"C:\a\b\l".to_string()), Entry::Dir(leaf)],
        access_denied: false,
        dominant_cat: FileCategory::Other,
    };
    let root = DirNode {
        path: r"C:\a".to_string(),
        name: "a".to_string(),
        total_size: 1,
        file_count: 1,
        children: vec![Entry::Dir(mid)],
        access_denied: false,
        dominant_cat: FileCategory::Other,
    };
    let rows = snapshot_rows(&root);
    assert_eq!(rows.len(), 3);
    assert_eq!(rows[0].path, r"C:\a");
    assert_eq!(rows[0].parent_path, None);
    assert!(rows[0].nav.is_empty());
    assert_eq!(rows[1].path, r"C:\a\b");
    assert_eq!(rows[1].parent_path.as_deref(), Some(r"C:\a"));
    assert_eq!(rows[1].nav, vec![0]);
    assert_eq!(rows[2].path, r"C:\a\b\c");
    assert_eq!(rows[2].parent_path.as_deref(), Some(r"C:\a\b"));
    assert_eq!(rows[2].nav, vec![0, 1]);
}
