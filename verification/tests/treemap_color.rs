use disk_reviewer::scanner::types::{DirNode, Entry, FileEntry};
use disk_reviewer::treemap::color::{categorize, categorize_entry, compute_dominant, dominant_category, FileCategory};

#[test]
fn test_categorize_document() {
    assert_eq!(categorize("test.txt"), FileCategory::Document);
    assert_eq!(categorize("report.pdf"), FileCategory::Document);
    assert_eq!(categorize("data.xlsx"), FileCategory::Document);
}

#[test]
fn test_categorize_image() {
    assert_eq!(categorize("photo.jpg"), FileCategory::Image);
    assert_eq!(categorize("icon.png"), FileCategory::Image);
}

#[test]
fn test_categorize_video() {
    assert_eq!(categorize("movie.mp4"), FileCategory::Video);
    assert_eq!(categorize("clip.mkv"), FileCategory::Video);
}

#[test]
fn test_categorize_audio() {
    assert_eq!(categorize("song.mp3"), FileCategory::Audio);
    assert_eq!(categorize("track.flac"), FileCategory::Audio);
}

#[test]
fn test_categorize_archive() {
    assert_eq!(categorize("data.zip"), FileCategory::Archive);
    assert_eq!(categorize("backup.7z"), FileCategory::Archive);
}

#[test]
fn test_categorize_code() {
    assert_eq!(categorize("main.rs"), FileCategory::Code);
    assert_eq!(categorize("app.py"), FileCategory::Code);
}

#[test]
fn test_categorize_executable() {
    assert_eq!(categorize("app.exe"), FileCategory::Executable);
    assert_eq!(categorize("setup.msi"), FileCategory::Executable);
}

#[test]
fn test_categorize_system() {
    assert_eq!(categorize("kernel.dll"), FileCategory::System);
    assert_eq!(categorize("driver.sys"), FileCategory::System);
}

#[test]
fn test_categorize_temp() {
    assert_eq!(categorize("cache.tmp"), FileCategory::Temp);
    assert_eq!(categorize("old.log"), FileCategory::Temp);
}

#[test]
fn test_categorize_other() {
    assert_eq!(categorize("data.xyz"), FileCategory::Other);
    assert_eq!(categorize("noext"), FileCategory::Other);
}

#[test]
fn test_document_color() {
    let c = FileCategory::Document.color();
    assert_eq!(c.r(), 40);
    assert_eq!(c.g(), 100);
    assert_eq!(c.b(), 200);
}

#[test]
fn test_dominant_category_documents() {
    let dir = DirNode {
        path: r"C:\docs".to_string(),
        name: "docs".to_string(),
        total_size: 300,
        file_count: 3,
        children: vec![
            Entry::File(FileEntry { name: "a.txt".to_string(), size: 100 }),
            Entry::File(FileEntry { name: "b.pdf".to_string(), size: 100 }),
            Entry::File(FileEntry { name: "c.jpg".to_string(), size: 100 }),
        ],
        access_denied: false,
        dominant_cat: FileCategory::Other,
    };
    let dom = compute_dominant(&dir);
    assert_eq!(dom, FileCategory::Document);
}

#[test]
fn categorize_ignores_case_and_takes_last_extension() {
    assert_eq!(categorize("PHOTO.JPG"), FileCategory::Image);
    assert_eq!(categorize("Backup.Tar.Gz"), FileCategory::Archive);
    assert_eq!(categorize("temperature.\u{212A}T"), FileCategory::Code);
    assert_eq!(categorize(r"C:\Users\me\notes.TXT"), FileCategory::Document);
    assert_eq!(categorize("C:/mixed/dir.d/readme"), FileCategory::Other);
}

#[test]
fn categorize_edge_names() {
    // a leading dot starts a hidden name, not an extension
    assert_eq!(categorize(".txt"), FileCategory::Other);
    assert_eq!(categorize("a."), FileCategory::Other);
    assert_eq!(categorize(".."), FileCategory::Other);
    assert_eq!(categorize(r"C:\dir\file.rs\"), FileCategory::Code);
    assert_eq!(categorize(r"C:\dir\file.rs\."), FileCategory::Code);
    assert_eq!(categorize("C:"), FileCategory::Other);
    assert_eq!(categorize(""), FileCategory::Other);
}

#[test]
fn every_category_has_colours_and_label() {
    let all = [
        FileCategory::Document,
        FileCategory::Image,
        FileCategory::Video,
        FileCategory::Audio,
        FileCategory::Archive,
        FileCategory::Code,
        FileCategory::Executable,
        FileCategory::System,
        FileCategory::Temp,
        FileCategory::Other,
    ];
    let labels: Vec<&str> = all.iter().map(|c| c.label()).collect();
    assert_eq!(labels, vec!["文档", "图片", "视频", "音频", "压缩包", "代码", "可执行", "系统", "临时", "其他"]);
    let e = FileCategory::Temp.gradient_end();
    assert_eq!((e.r(), e.g(), e.b()), (255, 170, 170));
    let c = FileCategory::Other.color();
    assert_eq!((c.r(), c.g(), c.b()), (160, 120, 200));
}

#[test]
fn categorize_entry_uses_names_and_paths() {
    let f = Entry::File(FileEntry { name: "a.mp3".to_string(), size: 1 });
    assert_eq!(categorize_entry(&f), FileCategory::Audio);
    let l = Entry::Symlink(r"C:\x\setup.exe".to_string());
    assert_eq!(categorize_entry(&l), FileCategory::Executable);
}

#[test]
fn dominant_looks_into_subdirectories_and_empty_is_other() {
    let empty = DirNode {
        path: r"C:\e".to_string(),
        name: "e".to_string(),
        total_size: 0,
        file_count: 0,
        children: vec![],
        access_denied: false,
        dominant_cat: FileCategory::Other,
    };
    assert_eq!(compute_dominant(&empty), FileCategory::Other);
    let sub = DirNode {
        path: r"C:\d\s".to_string(),
        name: "s".to_string(),
        total_size: 500,
        file_count: 1,
        children: vec![Entry::File(FileEntry { name: "x.dll".to_string(), size: 500 })],
        access_denied: false,
        dominant_cat: FileCategory::Image,
    };
    let dir = DirNode {
        path: r"C:\d".to_string(),
        name: "d".to_string(),
        total_size: 600,
        file_count: 2,
        children: vec![Entry::Dir(sub), Entry::File(FileEntry { name: "y.png".to_string(), size: 100 })],
        access_denied: false,
        dominant_cat: FileCategory::Temp,
    };
    assert_eq!(compute_dominant(&dir), FileCategory::System);
    assert_eq!(dominant_category(&dir), FileCategory::System);
}

#[test]
fn dominant_category_computes_from_contents() {
    let dir = DirNode {
        path: r"C:\docs".to_string(),
        name: "docs".to_string(),
        total_size: 300,
        file_count: 3,
        children: vec![
            Entry::File(FileEntry { name: "a.txt".to_string(), size: 100 }),
            Entry::File(FileEntry { name: "b.pdf".to_string(), size: 100 }),
            Entry::File(FileEntry { name: "c.jpg".to_string(), size: 100 }),
        ],
        access_denied: false,
        dominant_cat: FileCategory::Other,
    };
    assert_eq!(dominant_category(&dir), FileCategory::Document);
}
