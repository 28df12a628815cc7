use disk_reviewer::navigation::{count_access_denied, TreeNavigator};
use disk_reviewer::path::{path_display_name, path_file_name, path_join};
use disk_reviewer::platform::drives::{drive_letters, drive_root, DriveInfo};
use disk_reviewer::scanner::error::ScanError;
use disk_reviewer::scanner::types::{DirNode, Entry, FileEntry, OthersEntry};
use disk_reviewer::scanner::walker::{file_size_from_parts, listing_error, search_pattern, DirScan, FindRecord};
use disk_reviewer::snapshot::diff::{diff_level, ChangeType};
use disk_reviewer::snapshot::storage::SnapshotMeta;
use disk_reviewer::treemap::color::FileCategory;
use disk_reviewer::treemap::layout::layout_items;
use disk_reviewer::treemap::renderer::format_size;
use disk_reviewer::ui::comparison::{compute_diff, find_matching_dir_index, resolve_by_nav_stack};
use disk_reviewer::ui::snapshot_dialog::{comparison_name, maybe_prefill_default_name, SnapshotAction, SnapshotDialog};

fn file(name: &str, size: u64) -> Entry {
    Entry::File(FileEntry { name: name.to_string(), size })
}

fn dir(path: &str, name: &str, children: Vec<Entry>) -> DirNode {
    let total_size = children.iter().map(|e| e.size()).sum();
    DirNode {
        path: path.to_string(),
        name: name.to_string(),
        total_size,
        file_count: children.len() as u64,
        children,
        access_denied: false,
        dominant_cat: FileCategory::Other,
    }
}

/// What the size label shows, computed through f64 as a display would.
fn float_size(bytes: u64) -> String {
    let units = ["B", "KB", "MB", "GB", "TB"];
    let mut size = bytes as f64;
    let mut i = 0;
    while size >= 1024.0 && i < units.len() - 1 {
        size /= 1024.0;
        i += 1;
    }
    format!("{:.1} {}", size, units[i])
}

#[test]
fn format_size_exact_values() {
    assert_eq!(format_size(0), "0.0 B");
    assert_eq!(format_size(1023), "1023.0 B");
    assert_eq!(format_size(1024), "1.0 KB");
    assert_eq!(format_size(1536), "1.5 KB");
    assert_eq!(format_size(1280), "1.2 KB");
    assert_eq!(format_size(1048576), "1.0 MB");
    assert_eq!(format_size(1099511627776), "1.0 TB");
    assert_eq!(format_size(u64::MAX), "16777216.0 TB");
}

#[test]
fn format_size_matches_double_formatting() {
    let mut samples: Vec<u64> = vec![
        0, 1, 9, 10, 99, 100, 1000, 1023, 1024, 1025, 1075, 1126, 1177, 1280, 1331, 1433, 1484,
        2047, 2048, 10239, 10240, 1048575, 1048576, 1572864, 1101004, 5_000_000_000,
        9_007_199_254_740_993, 9_007_199_254_740_995, 18_014_398_509_481_987, u64::MAX - 1, u64::MAX,
    ];
    let mut x: u64 = 0x9E37_79B9_7F4A_7C15;
    for _ in 0..4000 {
        x ^= x << 13;
        x ^= x >> 7;
        x ^= x << 17;
        samples.push(x >> (x % 64));
    }
    for k in 0..2000u64 {
        samples.push(1024 * k + 512 + (k % 3));
        samples.push(k * 1024 * 1024 / 20);
        samples.push(k * 1024 / 20);
    }
    for b in samples {
        assert_eq!(format_size(b), float_size(b), "bytes = {}", b);
    }
}

#[test]
fn path_names() {
    assert_eq!(path_file_name(r"C:\Users\me"), Some("me".to_string()));
    assert_eq!(path_file_name(r"C:\"), None);
    assert_eq!(path_file_name(r"C:\a\.."), None);
    assert_eq!(path_display_name(r"D:\"), r"D:\");
    assert_eq!(path_display_name(r"C:\data\"), "data");
    assert_eq!(path_join(r"C:\a", "b"), r"C:\a\b");
    assert_eq!(path_join(r"C:\", "b"), r"C:\b");
    assert_eq!(path_join("C:", "b"), "C:b");
}

#[test]
fn layout_items_sorted_and_filtered() {
    let mut d = dir(r"C:\l", "l", vec![file("a.txt", 100), file("b.mp3", 300), file("c.zip", 100)]);
    d.children.push(Entry::AccessDenied { path: r"C:\l\denied".to_string() });
    let sub = dir(r"C:\l\s", "s", vec![file("x.png", 200)]);
    d.children.push(Entry::Dir(DirNode { dominant_cat: FileCategory::Image, ..sub }));
    d.total_size = 700;
    let items = layout_items(&d);
    let order: Vec<usize> = items.iter().map(|i| i.entry_index).collect();
    assert_eq!(order, vec![1, 4, 0, 2]);
    assert_eq!(items[0].category, FileCategory::Audio);
    assert_eq!(items[1].category, FileCategory::Image);
    assert!(items[1].is_dir);
    assert_eq!(items[1].label, "s");
    assert_eq!(items[2].size, 100);
    d.total_size = 0;
    assert!(layout_items(&d).is_empty());
}

#[test]
fn navigation_enters_and_returns() {
    let inner = dir(r"C:\r\in", "in", vec![file("f", 1)]);
    let root = dir(r"C:\r", "r", vec![file("g", 2), Entry::Dir(inner)]);
    let mut nav = TreeNavigator::new();
    nav.selected_index = Some(0);
    nav.drill_down(&root, Some(0));
    assert!(nav.nav_stack.is_empty());
    assert_eq!(nav.selected_index, Some(0));
    nav.drill_down(&root, Some(1));
    assert_eq!(nav.nav_stack, vec![1]);
    assert_eq!(nav.selected_index, None);
    assert_eq!(nav.current_dir(&root).unwrap().name, "in");
    nav.navigate_to_depth(0);
    assert!(nav.nav_stack.is_empty());
    assert_eq!(nav.current_dir(&root).unwrap().name, "r");
    assert!(resolve_by_nav_stack(&root, &vec![0]).is_none());
    assert!(resolve_by_nav_stack(&root, &vec![5]).is_none());
}

#[test]
fn counts_denied_directories_everywhere() {
    let inner = dir(r"C:\r\in", "in", vec![Entry::AccessDenied { path: r"C:\r\in\x".to_string() }]);
    let root = dir(
        r"C:\r",
        "r",
        vec![Entry::AccessDenied { path: r"C:\r\y".to_string() }, Entry::Dir(inner), file("z", 1)],
    );
    assert_eq!(count_access_denied(&root), 2);
}

#[test]
fn dir_scan_assembles_a_directory() {
    let mut scan = DirScan::new(r"C:\top");
    scan.add_find_entry(".", 0x10, 0, 0);
    scan.add_find_entry("..", 0x10, 0, 0);
    scan.add_find_entry("file1.txt", 0x20, 0, 10);
    scan.add_find_entry("big.bin", 0x20, 1, 5);
    scan.add_find_entry("sub", 0x10, 0, 0);
    scan.add_find_entry("link", 0x410, 0, 0);
    assert_eq!(scan.subdirs, vec![r"C:\top\sub".to_string()]);
    assert_eq!(scan.node.file_count, 2);
    assert_eq!(scan.node.total_size, 10 + (1u64 << 32) + 5);
    let sub = dir(r"C:\top\sub", "sub", vec![file("file3.txt", 30)]);
    scan.add_subdir_result(r"C:\top\sub".to_string(), Ok(sub));
    scan.add_subdir_result(r"C:\top\secret".to_string(), Err(ScanError::AccessDenied { path: r"C:\top\secret".to_string() }));
    scan.add_subdir_result(r"C:\top\gone".to_string(), Err(ScanError::Win32(2)));
    assert_eq!(scan.node.name, "top");
    assert_eq!(scan.node.children.len(), 5);
    assert_eq!(scan.node.total_size, 10 + (1u64 << 32) + 5 + 30);
    assert_eq!(scan.node.file_count, 3);
    assert_eq!(scan.node.children[2], Entry::Symlink(r"C:\top\link".to_string()));
    assert_eq!(scan.node.children[4], Entry::AccessDenied { path: r"C:\top\secret".to_string() });
    assert_eq!(file_size_from_parts(2, 3), (2u64 << 32) | 3);
    assert_eq!(search_pattern(r"C:\data"), r"\\?\C:\data\*");
    assert_eq!(search_pattern(r"\\?\C:\data"), r"\\?\C:\data\*");
    assert_eq!(listing_error("p", 5), ScanError::AccessDenied { path: "p".to_string() });
    assert_eq!(listing_error("p", 3), ScanError::Win32(3));
    assert_eq!(ScanError::Win32(3).message(), "Win32 error: 3");
    assert_eq!(ScanError::AccessDenied { path: r"C:\x".to_string() }.message(), r"Access denied: C:\x");
}

#[test]
fn drives_from_mask() {
    assert_eq!(drive_letters(0b1101), vec!['A', 'C', 'D']);
    assert_eq!(drive_letters(1 << 25), vec!['Z']);
    assert_eq!(drive_letters(1 << 26), Vec::<char>::new());
    assert_eq!(drive_root('C'), r"C:\");
    let d = DriveInfo::from_space('C', 100, 30);
    assert_eq!(d.used_bytes, 70);
}

#[test]
fn comparison_against_missing_scan_shows_everything_removed() {
    let snap = dir(r"C:\s", "s", vec![file("a", 1), file("b", 2)]);
    let diff = compute_diff(&vec![], &vec![], &snap, None);
    assert_eq!(diff.len(), 2);
    assert!(diff.iter().all(|d| d.change == ChangeType::Removed && d.new_size == 0));
    assert_eq!(diff[1].child_index, Some(1));
    let scan = dir(r"C:\s", "s", vec![file("a", 3)]);
    let diff = compute_diff(&vec![], &vec![], &snap, Some(&scan));
    assert_eq!(diff.len(), 2);
    assert_eq!(diff[0].change, ChangeType::Grown);
    assert_eq!(diff[1].change, ChangeType::Removed);
    assert!(compute_diff(&vec![0], &vec![], &snap, Some(&scan)).is_empty());
    let target = dir(r"C:\t", "t", vec![file("sub", 1), Entry::Dir(dir(r"C:\t\sub", "sub", vec![]))]);
    let source = dir(r"C:\u\sub", "sub", vec![]);
    assert_eq!(find_matching_dir_index(&source, &target), Some(1));
}

#[test]
fn diff_first_old_name_wins() {
    let old = dir(r"C:\o", "o", vec![file("a", 5), file("a", 9)]);
    let new = dir(r"C:\o", "o", vec![file("a", 9)]);
    let diff = diff_level(&old, &new);
    assert_eq!(diff.len(), 1);
    assert_eq!(diff[0].child_index, Some(0));
    assert_eq!(diff[0].change, ChangeType::Grown);
}

#[test]
fn snapshot_dialog_flow() {
    let mut d = SnapshotDialog::default();
    d.new_name_buffer = "  weekly \t".to_string();
    d.default_name_prefilled = true;
    assert_eq!(d.request_create("快照 x".to_string()), SnapshotAction::Create("weekly".to_string()));
    assert!(d.new_name_buffer.is_empty());
    assert!(!d.default_name_prefilled);
    d.new_name_buffer = " \u{3000} ".to_string();
    assert_eq!(d.request_create("快照 x".to_string()), SnapshotAction::Create("快照 x".to_string()));
    d.snapshots = vec![SnapshotMeta {
        id: 7,
        name: "first".to_string(),
        created_at: "2024-01-01 00:00".to_string(),
        root_path: r"C:\".to_string(),
        total_size: 1,
        total_files: 1,
    }];
    d.start_rename();
    assert_eq!(d.renaming_id, None);
    d.select(7);
    d.start_rename();
    assert_eq!(d.rename_buffer, "first");
    d.rename_buffer = "second".to_string();
    assert_eq!(d.confirm_rename(), SnapshotAction::Rename(7, "second".to_string()));
    assert_eq!(d.confirm_rename(), SnapshotAction::Nothing);
    d.request_delete();
    assert_eq!(d.delete_confirm_id, Some(7));
    assert_eq!(d.answer_delete(false), SnapshotAction::Nothing);
    d.request_delete();
    assert_eq!(d.answer_delete(true), SnapshotAction::Delete(7));
    assert_eq!(d.request_comparison(false), SnapshotAction::Nothing);
    assert_eq!(d.request_comparison(true), SnapshotAction::OpenComparison(7));
    assert_eq!(comparison_name(&d.snapshots, 7), "first");
    assert_eq!(comparison_name(&d.snapshots, -3), "快照 #-3");
    d.open = true;
    d.close();
    assert!(!d.open);
    let others = Entry::Others(OthersEntry { name: "Others".to_string(), size: 3, entry_count: 1, entries: vec![file("q", 3)] });
    assert_eq!(others.size(), 3);
}

fn make_dir(children: Vec<(String, u64)>) -> DirNode {
    let entries: Vec<Entry> = children.into_iter().map(|(name, size)| Entry::File(FileEntry { name, size })).collect();
    let mut d = dir(r"C:\test", "test", entries);
    d.file_count = d.children.len() as u64;
    d
}

#[test]
fn test_empty_dir_returns_empty_vec() {
    let dir = make_dir(vec![]);
    let result = layout_items(&dir);
    assert!(result.is_empty());
}

#[test]
fn test_zero_size_entries_filtered() {
    let mut dir = make_dir(vec![("a.txt".to_string(), 100)]);
    dir.children.push(Entry::AccessDenied { path: r"C:\denied".to_string() });
    let result = layout_items(&dir);
    assert_eq!(result.len(), 1, "AccessDenied 应被过滤");
}

#[test]
fn prefill_uses_the_given_stamp_once() {
    let mut d = SnapshotDialog::default();
    maybe_prefill_default_name(&mut d, "2024-05-06 07:08");
    assert_eq!(d.new_name_buffer, "快照 2024-05-06 07:08");
    assert!(d.default_name_prefilled);
    maybe_prefill_default_name(&mut d, "2030-01-01 00:00");
    assert_eq!(d.new_name_buffer, "快照 2024-05-06 07:08");
}

#[test]
fn dir_scan_from_listing_and_results() {
    let rec = |name: &str, attributes: u32, high: u32, low: u32| FindRecord {
        name: name.to_string(),
        attributes,
        size_high: high,
        size_low: low,
    };
    let records = vec![
        rec(".", 0x10, 0, 0),
        rec("..", 0x10, 0, 0),
        rec("a.txt", 0x20, 0, 10),
        rec("sub", 0x10, 7, 7),
        rec("link", 0x410, 0, 0),
        rec("b.bin", 0x20, 0, 20),
    ];
    let mut scan = DirScan::from_listing(r"C:\top", &records);
    assert_eq!(scan.node.total_size, 30);
    assert_eq!(scan.node.file_count, 2);
    assert_eq!(scan.subdirs, vec![r"C:\top\sub".to_string()]);
    assert_eq!(scan.node.children.len(), 3);
    assert_eq!(scan.node.children[1], Entry::Symlink(r"C:\top\link".to_string()));
    scan.subdirs.clear();
    let sub = dir(r"C:\top\sub", "sub", vec![file("c.txt", 5)]);
    let results = vec![
        (r"C:\top\sub".to_string(), Ok(sub)),
        (r"C:\top\no".to_string(), Err(ScanError::AccessDenied { path: r"C:\top\no".to_string() })),
        (r"C:\top\gone".to_string(), Err(ScanError::NotFound { path: r"C:\top\gone".to_string() })),
    ];
    let node = scan.into_dir(results);
    assert_eq!(node.name, "top");
    assert_eq!(node.total_size, 35);
    assert_eq!(node.file_count, 3);
    assert_eq!(node.children.len(), 5);
    assert_eq!(node.children[4], Entry::AccessDenied { path: r"C:\top\no".to_string() });
}

#[test]
fn path_prefixes_are_not_components() {
    assert_eq!(path_file_name(r"\\server\share.txt"), None);
    assert_eq!(disk_reviewer::treemap::color::categorize(r"\\server\share.txt"), FileCategory::Other);
    assert_eq!(path_file_name(r"\\server\share\dir\a.txt"), Some("a.txt".to_string()));
    assert_eq!(path_file_name(r"//server/share/b.txt"), Some("b.txt".to_string()));
    assert_eq!(path_file_name(r"\\server"), Some("server".to_string()));
    assert_eq!(path_file_name(r"\\.\COM1"), None);
    assert_eq!(path_file_name(r"\\?\UNC\srv\share"), None);
    assert_eq!(path_file_name(r"\\?\UNC\srv\share\x.txt"), Some("x.txt".to_string()));
    assert_eq!(path_file_name(r"\\?\C:\data\"), Some("data".to_string()));
    assert_eq!(path_file_name(r"\\?\C:\foo\."), None);
    assert_eq!(path_file_name(r"\\?\C:\a/b"), Some("a/b".to_string()));
    assert_eq!(path_file_name(r"\\?\pics"), None);
    assert_eq!(path_display_name(r"\\server\share"), r"\\server\share");
}
