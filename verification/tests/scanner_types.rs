use disk_reviewer::scanner::types::{AggThresholds, DirNode, Entry, FileEntry};
use disk_reviewer::treemap::color::FileCategory;

/// A directory holding `n` files of sizes `base_size`, `base_size + 1`, ...
fn make_dir_with_entries(n: usize, base_size: u64) -> DirNode {
    let mut children = Vec::new();
    for i in 0..n {
        children.push(Entry::File(FileEntry {
            name: format!("file_{}", i),
            size: base_size + i as u64,
        }));
    }
    let total_size: u64 = children.iter().map(|e| e.size()).sum();
    DirNode {
        path: r"C:\test".to_string(),
        name: "test".to_string(),
        total_size,
        file_count: n as u64,
        children,
        access_denied: false,
        dominant_cat: FileCategory::Other,
    }
}

#[test]
fn test_others_aggregation_above_threshold() {
    let mut node = make_dir_with_entries(1500, 100);
    let thresholds = AggThresholds::default();
    node.finish(&thresholds);
    let has_others = node.children.iter().any(|e| matches!(e, Entry::Others(_)));
    assert!(has_others, "超过阈值后应产生 Others 条目");
    assert!(node.children.len() < 1500, "聚合后条目数应减少");
}

#[test]
fn test_others_size_correct() {
    let mut node = make_dir_with_entries(1500, 100);
    let original_total = node.total_size;
    let thresholds = AggThresholds::default();
    node.finish(&thresholds);
    let others_size: u64 = node
        .children
        .iter()
        .filter_map(|e| match e {
            Entry::Others(o) => Some(o.size),
            _ => None,
        })
        .sum();
    assert!(others_size > 0, "Others 大小应 > 0");
    assert_eq!(node.total_size, original_total, "finish() 不应修改 total_size");
}

#[test]
fn test_no_aggregation_below_threshold() {
    let mut node = make_dir_with_entries(500, 1000);
    let original_count = node.children.len();
    let thresholds = AggThresholds::default();
    node.finish(&thresholds);
    let has_others = node.children.iter().any(|e| matches!(e, Entry::Others(_)));
    assert!(!has_others, "未超过阈值时不应产生 Others");
    assert_eq!(node.children.len(), original_count, "未超过阈值时条目数不变");
}

#[test]
fn test_others_entry_count() {
    let mut node = make_dir_with_entries(1500, 100);
    let thresholds = AggThresholds::default();
    node.finish(&thresholds);
    for child in &node.children {
        if let Entry::Others(o) = child {
            assert!(o.entry_count > 0, "Others 的 entry_count 应 > 0");
            assert_eq!(o.entries.len() as u64, o.entry_count, "entries.len() 应等于 entry_count");
            let inner_size: u64 = o.entries.iter().map(|e| e.size()).sum();
            assert_eq!(inner_size, o.size, "Others 内部条目大小之和应等于 Others.size");
            return;
        }
    }
    panic!("1500 条目、默认阈值下应产生 Others 条目");
}

#[test]
fn test_access_denied_entry_size_is_zero() {
    let entry = Entry::AccessDenied { path: r"C:\System".to_string() };
    assert_eq!(entry.size(), 0, "AccessDenied 条目 size 应为 0");
}

#[test]
fn test_symlink_entry_size_is_zero() {
    let entry = Entry::Symlink(r"C:\link".to_string());
    assert_eq!(entry.size(), 0, "Symlink 条目 size 应为 0");
}

#[test]
fn finish_keeps_largest_in_order_and_folds_small_rest() {
    // 1500 files of sizes 100..1599: the 500 largest are kept, largest first;
    // the threshold is 0.1% of the total, so every file of the rest is small.
    let mut node = make_dir_with_entries(1500, 100);
    let total = node.total_size;
    node.finish(&AggThresholds::default());
    assert_eq!(node.children.len(), 501);
    assert_eq!(node.children[0].size(), 1599);
    assert_eq!(node.children[499].size(), 1100);
    match &node.children[500] {
        Entry::Others(o) => {
            assert_eq!(o.name, "Others");
            assert_eq!(o.entry_count, 1000);
            assert_eq!(o.entries[0].size(), 1099);
            assert_eq!(o.size, (100..1100u64).sum::<u64>());
        }
        _ => panic!("last child should be Others"),
    }
    let sum: u64 = node.children.iter().map(|e| e.size()).sum();
    assert_eq!(sum, total);
}

#[test]
fn finish_keeps_large_entries_beyond_top_n() {
    // 1200 small files and one large one placed last; with a low top_n the
    // large one is kept among the top, the rest above the threshold are kept
    // in size order and no smaller ones exist.
    let mut node = make_dir_with_entries(1200, 10);
    node.children.push(Entry::File(FileEntry { name: "big.iso".to_string(), size: 1_000_000 }));
    node.total_size += 1_000_000;
    let th = AggThresholds { max_entries: 1000, top_n: 1, min_relative_size_ppm: 0 };
    node.finish(&th);
    assert_eq!(node.children.len(), 1201);
    assert_eq!(node.children[0].size(), 1_000_000);
    assert_eq!(node.children[1].size(), 1209);
    assert!(!node.children.iter().any(|e| matches!(e, Entry::Others(_))));
}

#[test]
fn finish_is_stable_for_equal_sizes() {
    let mut children = Vec::new();
    for i in 0..5u64 {
        children.push(Entry::File(FileEntry { name: format!("same_{}", i), size: 7 }));
    }
    let mut node = DirNode {
        path: r"C:\eq".to_string(),
        name: "eq".to_string(),
        total_size: 35,
        file_count: 5,
        children,
        access_denied: false,
        dominant_cat: FileCategory::Other,
    };
    let th = AggThresholds { max_entries: 2, top_n: 10, min_relative_size_ppm: 0 };
    node.finish(&th);
    let names: Vec<String> = node.children.iter().map(|e| e.name()).collect();
    assert_eq!(names, vec!["same_0", "same_1", "same_2", "same_3", "same_4"]);
}

#[test]
fn finish_records_dominant_category_recursively() {
    let sub = DirNode {
        path: r"C:\t\sub".to_string(),
        name: "sub".to_string(),
        total_size: 900,
        file_count: 1,
        children: vec![Entry::File(FileEntry { name: "movie.MP4".to_string(), size: 900 })],
        access_denied: false,
        dominant_cat: FileCategory::Other,
    };
    let mut root = DirNode {
        path: r"C:\t".to_string(),
        name: "t".to_string(),
        total_size: 1000,
        file_count: 2,
        children: vec![
            Entry::Dir(sub),
            Entry::File(FileEntry { name: "a.txt".to_string(), size: 100 }),
        ],
        access_denied: false,
        dominant_cat: FileCategory::Other,
    };
    root.finish(&AggThresholds::default());
    assert_eq!(root.dominant_cat, FileCategory::Video);
    match &root.children[0] {
        Entry::Dir(d) => assert_eq!(d.dominant_cat, FileCategory::Video),
        _ => panic!("expected Dir"),
    }
}

#[test]
fn entry_names() {
    assert_eq!(Entry::Symlink(r"C:\Users\link".to_string()).name(), "link");
    assert_eq!(Entry::AccessDenied { path: r"C:\".to_string() }.name(), r"C:\");
    assert_eq!(Entry::File(FileEntry { name: "x.txt".to_string(), size: 1 }).name(), "x.txt");
}

#[test]
fn clone_copies_the_tree() {
    let node = make_dir_with_entries(3, 5);
    let copy = node.clone();
    assert_eq!(copy, node);
}
