use disk_reviewer::scanner::types::{DirNode, Entry, FileEntry};
use disk_reviewer::snapshot::diff::{diff_level, diff_trees_recursive, entry_name, make_test_dir, ChangeType};
use disk_reviewer::treemap::color::FileCategory;


/// Test 1: diff_level with identical trees returns all Unchanged
#[test]
fn test_identical_trees_all_unchanged() {
    let children = vec![
        Entry::File(FileEntry {
            name: "a.txt".to_string(),
            size: 100,
        }),
        Entry::File(FileEntry {
            name: "b.txt".to_string(),
            size: 200,
        }),
    ];
    let old = make_test_dir("root", children.clone());
    let new = make_test_dir("root", children);

    let diff = diff_level(&old, &new);
    assert_eq!(diff.len(), 2);
    for d in &diff {
        assert_eq!(d.change, ChangeType::Unchanged);
        assert!(d.old_size.is_some());
        assert_eq!(d.old_size.unwrap(), d.new_size);
    }
}

/// Test 2: diff_level where new has extra entry -> Added
#[test]
fn test_new_has_extra_entry_added() {
    let old = make_test_dir(
        "root",
        vec![Entry::File(FileEntry {
            name: "a.txt".to_string(),
            size: 100,
        })],
    );
    let new = make_test_dir(
        "root",
        vec![
            Entry::File(FileEntry {
                name: "a.txt".to_string(),
                size: 100,
            }),
            Entry::File(FileEntry {
                name: "new_file.txt".to_string(),
                size: 50,
            }),
        ],
    );

    let diff = diff_level(&old, &new);
    assert_eq!(diff.len(), 2);

    let added: Vec<_> = diff
        .iter()
        .filter(|d| d.change == ChangeType::Added)
        .collect();
    assert_eq!(added.len(), 1);
    assert_eq!(added[0].old_size, None);
    assert_eq!(added[0].new_size, 50);
}

/// Test 3: diff_level where old has extra entry -> Removed
#[test]
fn test_old_has_extra_entry_removed() {
    let old = make_test_dir(
        "root",
        vec![
            Entry::File(FileEntry {
                name: "a.txt".to_string(),
                size: 100,
            }),
            Entry::File(FileEntry {
                name: "deleted.txt".to_string(),
                size: 75,
            }),
        ],
    );
    let new = make_test_dir(
        "root",
        vec![Entry::File(FileEntry {
            name: "a.txt".to_string(),
            size: 100,
        })],
    );

    let diff = diff_level(&old, &new);
    assert_eq!(diff.len(), 2);

    let removed: Vec<_> = diff
        .iter()
        .filter(|d| d.change == ChangeType::Removed)
        .collect();
    assert_eq!(removed.len(), 1);
    assert_eq!(removed[0].old_size, Some(75));
    assert_eq!(removed[0].new_size, 0);
}

/// Test 4: diff_level where entry size increased -> Grown
#[test]
fn test_entry_size_increased_grown() {
    let old = make_test_dir(
        "root",
        vec![Entry::File(FileEntry {
            name: "a.txt".to_string(),
            size: 100,
        })],
    );
    let new = make_test_dir(
        "root",
        vec![Entry::File(FileEntry {
            name: "a.txt".to_string(),
            size: 200,
        })],
    );

    let diff = diff_level(&old, &new);
    assert_eq!(diff.len(), 1);
    assert_eq!(diff[0].change, ChangeType::Grown);
    assert_eq!(diff[0].old_size, Some(100));
    assert_eq!(diff[0].new_size, 200);
}

/// Test 5: diff_level where entry size decreased -> Shrunk
#[test]
fn test_entry_size_decreased_shrunk() {
    let old = make_test_dir(
        "root",
        vec![Entry::File(FileEntry {
            name: "a.txt".to_string(),
            size: 300,
        })],
    );
    let new = make_test_dir(
        "root",
        vec![Entry::File(FileEntry {
            name: "a.txt".to_string(),
            size: 150,
        })],
    );

    let diff = diff_level(&old, &new);
    assert_eq!(diff.len(), 1);
    assert_eq!(diff[0].change, ChangeType::Shrunk);
    assert_eq!(diff[0].old_size, Some(300));
    assert_eq!(diff[0].new_size, 150);
}

/// Test 6: DiffNode count equals union of old + new entry count
#[test]
fn test_diff_node_count_equals_union() {
    let old = make_test_dir(
        "root",
        vec![
            Entry::File(FileEntry {
                name: "a.txt".to_string(),
                size: 100,
            }),
            Entry::File(FileEntry {
                name: "b.txt".to_string(),
                size: 200,
            }),
            Entry::File(FileEntry {
                name: "only_old.txt".to_string(),
                size: 50,
            }),
        ],
    );
    let new = make_test_dir(
        "root",
        vec![
            Entry::File(FileEntry {
                name: "a.txt".to_string(),
                size: 100,
            }),
            Entry::File(FileEntry {
                name: "b.txt".to_string(),
                size: 200,
            }),
            Entry::File(FileEntry {
                name: "only_new.txt".to_string(),
                size: 80,
            }),
        ],
    );
    // Union: a.txt, b.txt, only_old.txt, only_new.txt = 4
    let diff = diff_level(&old, &new);
    assert_eq!(diff.len(), 4);
}

/// Test 7: diff_level with empty old tree -> all Added
#[test]
fn test_empty_old_all_added() {
    let old = make_test_dir("root", vec![]);
    let new = make_test_dir(
        "root",
        vec![
            Entry::File(FileEntry {
                name: "a.txt".to_string(),
                size: 100,
            }),
            Entry::File(FileEntry {
                name: "b.txt".to_string(),
                size: 200,
            }),
        ],
    );

    let diff = diff_level(&old, &new);
    assert_eq!(diff.len(), 2);
    for d in &diff {
        assert_eq!(d.change, ChangeType::Added);
    }
}

/// Test 8: diff_level with empty new tree -> all Removed
#[test]
fn test_empty_new_all_removed() {
    let old = make_test_dir(
        "root",
        vec![
            Entry::File(FileEntry {
                name: "a.txt".to_string(),
                size: 100,
            }),
            Entry::File(FileEntry {
                name: "b.txt".to_string(),
                size: 200,
            }),
        ],
    );
    let new = make_test_dir("root", vec![]);

    let diff = diff_level(&old, &new);
    assert_eq!(diff.len(), 2);
    for d in &diff {
        assert_eq!(d.change, ChangeType::Removed);
    }
}

/// Test 9: diff_level with both empty -> empty result
#[test]
fn test_both_empty() {
    let old = make_test_dir("root", vec![]);
    let new = make_test_dir("root", vec![]);

    let diff = diff_level(&old, &new);
    assert!(diff.is_empty());
}

/// Test 10: diff_trees_recursive on nested DirNode trees (2 levels)
#[test]
fn test_recursive_nested_dir_diff() {
    let old = make_test_dir(
        "root",
        vec![Entry::Dir(DirNode {
            path: r"C:\root\sub".to_string(),
            name: "sub".to_string(),
            total_size: 300,
            file_count: 2,
            children: vec![
                Entry::File(FileEntry {
                    name: "old_file.txt".to_string(),
                    size: 100,
                }),
                Entry::File(FileEntry {
                    name: "common.txt".to_string(),
                    size: 200,
                }),
            ],
            access_denied: false,
            dominant_cat: FileCategory::Other,
        })],
    );
    let new = make_test_dir(
        "root",
        vec![Entry::Dir(DirNode {
            path: r"C:\root\sub".to_string(),
            name: "sub".to_string(),
            total_size: 400,
            file_count: 2,
            children: vec![
                Entry::File(FileEntry {
                    name: "new_file.txt".to_string(),
                    size: 150,
                }),
                Entry::File(FileEntry {
                    name: "common.txt".to_string(),
                    size: 250,
                }),
            ],
            access_denied: false,
            dominant_cat: FileCategory::Other,
        })],
    );

    // At root level: "sub" dir matched by name, sizes changed
    let diff = diff_trees_recursive(&old, &new);
    assert_eq!(diff.len(), 1);
    assert_eq!(diff[0].change, ChangeType::Grown);
    assert_eq!(diff[0].old_size, Some(300));
    assert_eq!(diff[0].new_size, 400);

    // At the subdirectory level: diff children
    if let Entry::Dir(old_sub) = &old.children[0] {
        if let Entry::Dir(new_sub) = &new.children[0] {
            let sub_diff = diff_level(old_sub, new_sub);
            assert_eq!(sub_diff.len(), 3); // old_file (removed), new_file (added), common (grown)

            let removed: Vec<_> = sub_diff
                .iter()
                .filter(|d| d.change == ChangeType::Removed)
                .collect();
            assert_eq!(removed.len(), 1);
            assert_eq!(entry_name(&removed[0].entry), "old_file.txt");

            let added: Vec<_> = sub_diff
                .iter()
                .filter(|d| d.change == ChangeType::Added)
                .collect();
            assert_eq!(added.len(), 1);
            assert_eq!(entry_name(&added[0].entry), "new_file.txt");

            let grown: Vec<_> = sub_diff
                .iter()
                .filter(|d| d.change == ChangeType::Grown)
                .collect();
            assert_eq!(grown.len(), 1);
            assert_eq!(grown[0].old_size, Some(200));
            assert_eq!(grown[0].new_size, 250);
        }
    }
}

/// Test 11: Name-based matching (D-19): entries matched by name, not position
#[test]
fn test_name_based_matching_not_position() {
    // Same entries but in different order
    let old = make_test_dir(
        "root",
        vec![
            Entry::File(FileEntry {
                name: "z.txt".to_string(),
                size: 100,
            }),
            Entry::File(FileEntry {
                name: "a.txt".to_string(),
                size: 200,
            }),
        ],
    );
    let new = make_test_dir(
        "root",
        vec![
            Entry::File(FileEntry {
                name: "a.txt".to_string(),
                size: 250,
            }),
            Entry::File(FileEntry {
                name: "z.txt".to_string(),
                size: 100,
            }),
        ],
    );

    let diff = diff_level(&old, &new);
    // Should identify: a.txt grew (200->250), z.txt unchanged (100->100)
    assert_eq!(diff.len(), 2);

    let a_entry = diff.iter().find(|d| entry_name(&d.entry) == "a.txt").unwrap();
    assert_eq!(a_entry.change, ChangeType::Grown);
    assert_eq!(a_entry.old_size, Some(200));
    assert_eq!(a_entry.new_size, 250);

    let z_entry = diff.iter().find(|d| entry_name(&d.entry) == "z.txt").unwrap();
    assert_eq!(z_entry.change, ChangeType::Unchanged);
}

/// Test 12: Dir entries with same name but different children matched and compared by size
#[test]
fn test_dir_entries_same_name_different_size() {
    let old = make_test_dir(
        "root",
        vec![Entry::Dir(DirNode {
            path: r"C:\root\mydir".to_string(),
            name: "mydir".to_string(),
            total_size: 500,
            file_count: 3,
            children: vec![
                Entry::File(FileEntry {
                    name: "x.txt".to_string(),
                    size: 200,
                }),
                Entry::File(FileEntry {
                    name: "y.txt".to_string(),
                    size: 300,
                }),
            ],
            access_denied: false,
            dominant_cat: FileCategory::Other,
        })],
    );
    let new = make_test_dir(
        "root",
        vec![Entry::Dir(DirNode {
            path: r"C:\root\mydir".to_string(),
            name: "mydir".to_string(),
            total_size: 800,
            file_count: 4,
            children: vec![
                Entry::File(FileEntry {
                    name: "x.txt".to_string(),
                    size: 300,
                }),
                Entry::File(FileEntry {
                    name: "z.txt".to_string(),
                    size: 500,
                }),
            ],
            access_denied: false,
            dominant_cat: FileCategory::Other,
        })],
    );

    let diff = diff_level(&old, &new);
    assert_eq!(diff.len(), 1);
    // "mydir" matched by name, size grew from 500 to 800
    assert_eq!(entry_name(&diff[0].entry), "mydir");
    assert_eq!(diff[0].change, ChangeType::Grown);
    assert_eq!(diff[0].old_size, Some(500));
    assert_eq!(diff[0].new_size, 800);
}

