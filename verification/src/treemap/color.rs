use vstd::prelude::*;

use crate::path::{extension, path_extension};
use crate::scanner::types::{entry_size, DirNode, Entry};

verus! {

/// The kind of content a block stands for, which decides its colour.
#[derive(Debug, Clone, Copy, PartialEq, Eq, Hash, Structural)]
pub enum FileCategory {
    Document,
    Image,
    Video,
    Audio,
    Archive,
    Code,
    Executable,
    System,
    Temp,
    Other,
}

/// An opaque colour given by its red, green and blue channels.
#[derive(Debug, Clone, Copy, PartialEq, Eq, Structural)]
pub struct Rgb {
    pub red: u8,
    pub green: u8,
    pub blue: u8,
}

impl Rgb {
    pub fn from_rgb(r: u8, g: u8, b: u8) -> (c: Rgb)
        ensures
            c.red == r && c.green == g && c.blue == b,
    {
        Rgb { red: r, green: g, blue: b }
    }

    pub fn r(&self) -> (v: u8)
        ensures
            v == self.red,
    {
        self.red
    }

    pub fn g(&self) -> (v: u8)
        ensures
            v == self.green,
    {
        self.green
    }

    pub fn b(&self) -> (v: u8)
        ensures
            v == self.blue,
    {
        self.blue
    }
}

pub open spec fn rgb(r: u8, g: u8, b: u8) -> Rgb {
    Rgb { red: r, green: g, blue: b }
}

/// Main colour of each category (the upper part of a block).
pub open spec fn category_color(c: FileCategory) -> Rgb {
    match c {
        FileCategory::Document => rgb(40, 100, 200),
        FileCategory::Image => rgb(46, 139, 87),
        FileCategory::Video => rgb(220, 20, 60),
        FileCategory::Audio => rgb(255, 140, 0),
        FileCategory::Archive => rgb(128, 0, 128),
        FileCategory::Code => rgb(0, 128, 128),
        FileCategory::Executable => rgb(184, 134, 11),
        FileCategory::System => rgb(120, 120, 140),
        FileCategory::Temp => rgb(255, 100, 100),
        FileCategory::Other => rgb(160, 120, 200),
    }
}

/// Lighter colour of the same hue that a block fades to at its bottom.
pub open spec fn category_gradient_end(c: FileCategory) -> Rgb {
    match c {
        FileCategory::Document => rgb(140, 180, 230),
        FileCategory::Image => rgb(130, 200, 160),
        FileCategory::Video => rgb(240, 120, 130),
        FileCategory::Audio => rgb(255, 200, 120),
        FileCategory::Archive => rgb(190, 120, 190),
        FileCategory::Code => rgb(100, 190, 190),
        FileCategory::Executable => rgb(220, 190, 110),
        FileCategory::System => rgb(180, 180, 200),
        FileCategory::Temp => rgb(255, 170, 170),
        FileCategory::Other => rgb(210, 180, 240),
    }
}

/// Label of each category as shown in the legend.
pub open spec fn category_label(c: FileCategory) -> Seq<char> {
    match c {
        FileCategory::Document => "文档"@,
        FileCategory::Image => "图片"@,
        FileCategory::Video => "视频"@,
        FileCategory::Audio => "音频"@,
        FileCategory::Archive => "压缩包"@,
        FileCategory::Code => "代码"@,
        FileCategory::Executable => "可执行"@,
        FileCategory::System => "系统"@,
        FileCategory::Temp => "临时"@,
        FileCategory::Other => "其他"@,
    }
}

impl FileCategory {
    pub fn color(&self) -> (c: Rgb)
        ensures
            c == category_color(*self),
    {
        match self {
            FileCategory::Document => Rgb::from_rgb(40, 100, 200),
            FileCategory::Image => Rgb::from_rgb(46, 139, 87),
            FileCategory::Video => Rgb::from_rgb(220, 20, 60),
            FileCategory::Audio => Rgb::from_rgb(255, 140, 0),
            FileCategory::Archive => Rgb::from_rgb(128, 0, 128),
            FileCategory::Code => Rgb::from_rgb(0, 128, 128),
            FileCategory::Executable => Rgb::from_rgb(184, 134, 11),
            FileCategory::System => Rgb::from_rgb(120, 120, 140),
            FileCategory::Temp => Rgb::from_rgb(255, 100, 100),
            FileCategory::Other => Rgb::from_rgb(160, 120, 200),
        }
    }

    pub fn gradient_end(&self) -> (c: Rgb)
        ensures
            c == category_gradient_end(*self),
    {
        match self {
            FileCategory::Document => Rgb::from_rgb(140, 180, 230),
            FileCategory::Image => Rgb::from_rgb(130, 200, 160),
            FileCategory::Video => Rgb::from_rgb(240, 120, 130),
            FileCategory::Audio => Rgb::from_rgb(255, 200, 120),
            FileCategory::Archive => Rgb::from_rgb(190, 120, 190),
            FileCategory::Code => Rgb::from_rgb(100, 190, 190),
            FileCategory::Executable => Rgb::from_rgb(220, 190, 110),
            FileCategory::System => Rgb::from_rgb(180, 180, 200),
            FileCategory::Temp => Rgb::from_rgb(255, 170, 170),
            FileCategory::Other => Rgb::from_rgb(210, 180, 240),
        }
    }

    pub fn label(&self) -> (s: &'static str)
        ensures
            s@ == category_label(*self),
    {
        match self {
            FileCategory::Document => "文档",
            FileCategory::Image => "图片",
            FileCategory::Video => "视频",
            FileCategory::Audio => "音频",
            FileCategory::Archive => "压缩包",
            FileCategory::Code => "代码",
            FileCategory::Executable => "可执行",
            FileCategory::System => "系统",
            FileCategory::Temp => "临时",
            FileCategory::Other => "其他",
        }
    }
}

/// Lower case of a character, as far as it matters for comparing with a
/// lower-case ASCII word: `A`-`Z` become `a`-`z` and the KELVIN SIGN becomes
/// `k` (the only other character whose lower case is ASCII); any other
/// character is kept, and so never equals an ASCII letter it is not.
pub open spec fn lower_char(c: char) -> char {
    if 'A' <= c && c <= 'Z' {
        ((c as int) + 32) as char
    } else if c == '\u{212A}' {
        'k'
    } else {
        c
    }
}

pub open spec fn lower_seq(s: Seq<char>) -> Seq<char> {
    Seq::new(s.len(), |i: int| lower_char(s[i]))
}

fn lower_char_is(c: char, l: char) -> (b: bool)
    ensures
        b == (lower_char(c) == l),
{
    if 'A' <= c && c <= 'Z' {
        (c as u32) + 32 == (l as u32)
    } else if c == '\u{212A}' {
        l == 'k'
    } else {
        c == l
    }
}

/// Whether the lower case of `e` is the word `lit`.
fn lower_eq(e: &Vec<char>, lit: &str) -> (b: bool)
    ensures
        b == (lower_seq(e@) == lit@),
{
    let n = lit.unicode_len();
    if e.len() != n {
        proof {
            assert(lower_seq(e@).len() != lit@.len());
        }
        return false;
    }
    let mut i: usize = 0;
    while i < n
        invariant
            n == lit@.len() == e@.len(),
            i <= n,
            forall|k: int| 0 <= k < i ==> lower_char(e@[k]) == lit@[k],
        decreases n - i,
    {
        if !lower_char_is(e[i], lit.get_char(i)) {
            proof {
                assert(lower_seq(e@)[i as int] != lit@[i as int]);
            }
            return false;
        }
        i = i + 1;
    }
    proof {
        assert(lower_seq(e@) =~= lit@);
    }
    true
}

/// Extensions of the Document category, in lower case.
pub open spec fn is_document_ext(l: Seq<char>) -> bool {
    l == "txt"@
    || l == "doc"@
    || l == "docx"@
    || l == "pdf"@
    || l == "xls"@
    || l == "xlsx"@
    || l == "ppt"@
    || l == "pptx"@
    || l == "rtf"@
    || l == "odt"@
}

/// Extensions of the Image category, in lower case.
pub open spec fn is_image_ext(l: Seq<char>) -> bool {
    l == "jpg"@
    || l == "jpeg"@
    || l == "png"@
    || l == "gif"@
    || l == "bmp"@
    || l == "svg"@
    || l == "webp"@
    || l == "ico"@
    || l == "tiff"@
    || l == "tif"@
    || l == "raw"@
    || l == "heic"@
}

/// Extensions of the Video category, in lower case.
pub open spec fn is_video_ext(l: Seq<char>) -> bool {
    l == "mp4"@
    || l == "avi"@
    || l == "mkv"@
    || l == "mov"@
    || l == "wmv"@
    || l == "flv"@
    || l == "webm"@
    || l == "m4v"@
    || l == "mpg"@
    || l == "mpeg"@
}

/// Extensions of the Audio category, in lower case.
pub open spec fn is_audio_ext(l: Seq<char>) -> bool {
    l == "mp3"@
    || l == "wav"@
    || l == "flac"@
    || l == "aac"@
    || l == "ogg"@
    || l == "wma"@
    || l == "m4a"@
    || l == "opus"@
    || l == "ape"@
}

/// Extensions of the Archive category, in lower case.
pub open spec fn is_archive_ext(l: Seq<char>) -> bool {
    l == "zip"@
    || l == "rar"@
    || l == "7z"@
    || l == "tar"@
    || l == "gz"@
    || l == "bz2"@
    || l == "xz"@
    || l == "lz"@
    || l == "cab"@
    || l == "iso"@
}

/// Extensions of the Code category, in lower case.
pub open spec fn is_code_ext(l: Seq<char>) -> bool {
    l == "rs"@
    || l == "py"@
    || l == "js"@
    || l == "ts"@
    || l == "java"@
    || l == "c"@
    || l == "cpp"@
    || l == "h"@
    || l == "hpp"@
    || l == "go"@
    || l == "rb"@
    || l == "php"@
    || l == "swift"@
    || l == "kt"@
    || l == "scala"@
    || l == "html"@
    || l == "css"@
    || l == "xml"@
    || l == "json"@
    || l == "yaml"@
    || l == "yml"@
    || l == "toml"@
    || l == "sql"@
    || l == "sh"@
    || l == "bat"@
    || l == "ps1"@
}

/// Extensions of the Executable category, in lower case.
pub open spec fn is_executable_ext(l: Seq<char>) -> bool {
    l == "exe"@
    || l == "msi"@
    || l == "com"@
    || l == "scr"@
}

/// Extensions of the System category, in lower case.
pub open spec fn is_system_ext(l: Seq<char>) -> bool {
    l == "dll"@
    || l == "sys"@
    || l == "drv"@
    || l == "ocx"@
    || l == "cpl"@
    || l == "efi"@
}

/// Extensions of the Temp category, in lower case.
pub open spec fn is_temp_ext(l: Seq<char>) -> bool {
    l == "tmp"@
    || l == "temp"@
    || l == "bak"@
    || l == "old"@
    || l == "log"@
    || l == "cache"@
}

/// The category of a file extension, compared without regard to case.
pub open spec fn ext_category(ext: Seq<char>) -> FileCategory {
    let l = lower_seq(ext);
    if is_document_ext(l) {
        FileCategory::Document
    } else if is_image_ext(l) {
        FileCategory::Image
    } else if is_video_ext(l) {
        FileCategory::Video
    } else if is_audio_ext(l) {
        FileCategory::Audio
    } else if is_archive_ext(l) {
        FileCategory::Archive
    } else if is_code_ext(l) {
        FileCategory::Code
    } else if is_executable_ext(l) {
        FileCategory::Executable
    } else if is_system_ext(l) {
        FileCategory::System
    } else if is_temp_ext(l) {
        FileCategory::Temp
    } else {
        FileCategory::Other
    }
}

fn is_document_ext_exec(e: &Vec<char>) -> (b: bool)
    ensures
        b == is_document_ext(lower_seq(e@)),
{
    lower_eq(e, "txt")
        || lower_eq(e, "doc")
        || lower_eq(e, "docx")
        || lower_eq(e, "pdf")
        || lower_eq(e, "xls")
        || lower_eq(e, "xlsx")
        || lower_eq(e, "ppt")
        || lower_eq(e, "pptx")
        || lower_eq(e, "rtf")
        || lower_eq(e, "odt")
}

fn is_image_ext_exec(e: &Vec<char>) -> (b: bool)
    ensures
        b == is_image_ext(lower_seq(e@)),
{
    lower_eq(e, "jpg")
        || lower_eq(e, "jpeg")
        || lower_eq(e, "png")
        || lower_eq(e, "gif")
        || lower_eq(e, "bmp")
        || lower_eq(e, "svg")
        || lower_eq(e, "webp")
        || lower_eq(e, "ico")
        || lower_eq(e, "tiff")
        || lower_eq(e, "tif")
        || lower_eq(e, "raw")
        || lower_eq(e, "heic")
}

fn is_video_ext_exec(e: &Vec<char>) -> (b: bool)
    ensures
        b == is_video_ext(lower_seq(e@)),
{
    lower_eq(e, "mp4")
        || lower_eq(e, "avi")
        || lower_eq(e, "mkv")
        || lower_eq(e, "mov")
        || lower_eq(e, "wmv")
        || lower_eq(e, "flv")
        || lower_eq(e, "webm")
        || lower_eq(e, "m4v")
        || lower_eq(e, "mpg")
        || lower_eq(e, "mpeg")
}

fn is_audio_ext_exec(e: &Vec<char>) -> (b: bool)
    ensures
        b == is_audio_ext(lower_seq(e@)),
{
    lower_eq(e, "mp3")
        || lower_eq(e, "wav")
        || lower_eq(e, "flac")
        || lower_eq(e, "aac")
        || lower_eq(e, "ogg")
        || lower_eq(e, "wma")
        || lower_eq(e, "m4a")
        || lower_eq(e, "opus")
        || lower_eq(e, "ape")
}

fn is_archive_ext_exec(e: &Vec<char>) -> (b: bool)
    ensures
        b == is_archive_ext(lower_seq(e@)),
{
    lower_eq(e, "zip")
        || lower_eq(e, "rar")
        || lower_eq(e, "7z")
        || lower_eq(e, "tar")
        || lower_eq(e, "gz")
        || lower_eq(e, "bz2")
        || lower_eq(e, "xz")
        || lower_eq(e, "lz")
        || lower_eq(e, "cab")
        || lower_eq(e, "iso")
}

fn is_code_ext_exec(e: &Vec<char>) -> (b: bool)
    ensures
        b == is_code_ext(lower_seq(e@)),
{
    lower_eq(e, "rs")
        || lower_eq(e, "py")
        || lower_eq(e, "js")
        || lower_eq(e, "ts")
        || lower_eq(e, "java")
        || lower_eq(e, "c")
        || lower_eq(e, "cpp")
        || lower_eq(e, "h")
        || lower_eq(e, "hpp")
        || lower_eq(e, "go")
        || lower_eq(e, "rb")
        || lower_eq(e, "php")
        || lower_eq(e, "swift")
        || lower_eq(e, "kt")
        || lower_eq(e, "scala")
        || lower_eq(e, "html")
        || lower_eq(e, "css")
        || lower_eq(e, "xml")
        || lower_eq(e, "json")
        || lower_eq(e, "yaml")
        || lower_eq(e, "yml")
        || lower_eq(e, "toml")
        || lower_eq(e, "sql")
        || lower_eq(e, "sh")
        || lower_eq(e, "bat")
        || lower_eq(e, "ps1")
}

fn is_executable_ext_exec(e: &Vec<char>) -> (b: bool)
    ensures
        b == is_executable_ext(lower_seq(e@)),
{
    lower_eq(e, "exe")
        || lower_eq(e, "msi")
        || lower_eq(e, "com")
        || lower_eq(e, "scr")
}

fn is_system_ext_exec(e: &Vec<char>) -> (b: bool)
    ensures
        b == is_system_ext(lower_seq(e@)),
{
    lower_eq(e, "dll")
        || lower_eq(e, "sys")
        || lower_eq(e, "drv")
        || lower_eq(e, "ocx")
        || lower_eq(e, "cpl")
        || lower_eq(e, "efi")
}

fn is_temp_ext_exec(e: &Vec<char>) -> (b: bool)
    ensures
        b == is_temp_ext(lower_seq(e@)),
{
    lower_eq(e, "tmp")
        || lower_eq(e, "temp")
        || lower_eq(e, "bak")
        || lower_eq(e, "old")
        || lower_eq(e, "log")
        || lower_eq(e, "cache")
}

fn ext_category_exec(e: &Vec<char>) -> (c: FileCategory)
    ensures
        c == ext_category(e@),
{
    if is_document_ext_exec(e) {
        FileCategory::Document
    } else if is_image_ext_exec(e) {
        FileCategory::Image
    } else if is_video_ext_exec(e) {
        FileCategory::Video
    } else if is_audio_ext_exec(e) {
        FileCategory::Audio
    } else if is_archive_ext_exec(e) {
        FileCategory::Archive
    } else if is_code_ext_exec(e) {
        FileCategory::Code
    } else if is_executable_ext_exec(e) {
        FileCategory::Executable
    } else if is_system_ext_exec(e) {
        FileCategory::System
    } else if is_temp_ext_exec(e) {
        FileCategory::Temp
    } else {
        FileCategory::Other
    }
}
/// Upper case of an ASCII letter; any other character is kept.
pub open spec fn upper_char(c: char) -> char {
    if 'a' <= c && c <= 'z' {
        ((c as int) - 32) as char
    } else {
        c
    }
}

/// Law: the category of an extension does not depend on the case its
/// letters are written in.
pub proof fn law_category_ignores_case(ext: Seq<char>)
    ensures
        ext_category(Seq::new(ext.len(), |i: int| upper_char(ext[i]))) == ext_category(ext),
{
    let up = Seq::new(ext.len(), |i: int| upper_char(ext[i]));
    assert(lower_seq(up) =~= lower_seq(ext));
}

/// The category of a path: by its extension, any other path is `Other`.
pub open spec fn path_category(p: Seq<char>) -> FileCategory {
    match extension(p) {
        Some(e) => ext_category(e),
        None => FileCategory::Other,
    }
}

/// Category of a path from its extension, compared without regard to case.
pub fn categorize(path: &str) -> (c: FileCategory)
    ensures
        c == path_category(path@),
{
    match path_extension(path) {
        Some(e) => ext_category_exec(&e),
        None => FileCategory::Other,
    }
}

/// The category an entry is drawn with when nothing better is known: that of
/// its name, or of its path for links and unreadable directories.
pub open spec fn entry_category(e: Entry) -> FileCategory {
    match e {
        Entry::File(f) => path_category(f.name@),
        Entry::Dir(d) => path_category(d.name@),
        Entry::Others(o) => path_category(o.name@),
        Entry::Symlink(p) => path_category(p@),
        Entry::AccessDenied { path } => path_category(path@),
    }
}

pub fn categorize_entry(entry: &Entry) -> (c: FileCategory)
    ensures
        c == entry_category(*entry),
{
    match entry {
        Entry::File(f) => categorize(f.name.as_str()),
        Entry::Dir(d) => categorize(d.name.as_str()),
        Entry::Others(o) => categorize(o.name.as_str()),
        Entry::Symlink(p) => categorize(p.as_str()),
        Entry::AccessDenied { path } => categorize(path.as_str()),
    }
}

/// Position of a category in the declaration order.
pub open spec fn category_index(c: FileCategory) -> int {
    match c {
        FileCategory::Document => 0,
        FileCategory::Image => 1,
        FileCategory::Video => 2,
        FileCategory::Audio => 3,
        FileCategory::Archive => 4,
        FileCategory::Code => 5,
        FileCategory::Executable => 6,
        FileCategory::System => 7,
        FileCategory::Temp => 8,
        FileCategory::Other => 9,
    }
}

pub open spec fn category_at(i: int) -> FileCategory {
    if i == 0 {
        FileCategory::Document
    } else if i == 1 {
        FileCategory::Image
    } else if i == 2 {
        FileCategory::Video
    } else if i == 3 {
        FileCategory::Audio
    } else if i == 4 {
        FileCategory::Archive
    } else if i == 5 {
        FileCategory::Code
    } else if i == 6 {
        FileCategory::Executable
    } else if i == 7 {
        FileCategory::System
    } else if i == 8 {
        FileCategory::Temp
    } else {
        FileCategory::Other
    }
}

fn category_index_exec(c: FileCategory) -> (i: usize)
    ensures
        i == category_index(c),
        category_at(i as int) == c,
{
    match c {
        FileCategory::Document => 0,
        FileCategory::Image => 1,
        FileCategory::Video => 2,
        FileCategory::Audio => 3,
        FileCategory::Archive => 4,
        FileCategory::Code => 5,
        FileCategory::Executable => 6,
        FileCategory::System => 7,
        FileCategory::Temp => 8,
        FileCategory::Other => 9,
    }
}

fn category_at_exec(i: usize) -> (c: FileCategory)
    requires
        i < 10,
    ensures
        c == category_at(i as int),
        category_index(c) == i,
{
    if i == 0 {
        FileCategory::Document
    } else if i == 1 {
        FileCategory::Image
    } else if i == 2 {
        FileCategory::Video
    } else if i == 3 {
        FileCategory::Audio
    } else if i == 4 {
        FileCategory::Archive
    } else if i == 5 {
        FileCategory::Code
    } else if i == 6 {
        FileCategory::Executable
    } else if i == 7 {
        FileCategory::System
    } else if i == 8 {
        FileCategory::Temp
    } else {
        FileCategory::Other
    }
}

/// Total size of the entries of category `c` below `s`: directories are
/// looked into, every other entry counts once with its own size.
pub open spec fn category_total(s: Seq<Entry>, c: FileCategory) -> int
    decreases s,
{
    if s.len() == 0 {
        0
    } else {
        category_total(s.drop_last(), c) + match s.last() {
            Entry::Dir(d) => category_total(d.children@, c),
            e => if entry_category(e) == c {
                entry_size(e) as int
            } else {
                0
            },
        }
    }
}

/// Whether some entry of category `c` lies below `s` (directories looked
/// into, not counted themselves).
pub open spec fn category_present(s: Seq<Entry>, c: FileCategory) -> bool
    decreases s,
{
    if s.len() == 0 {
        false
    } else {
        category_present(s.drop_last(), c) || match s.last() {
            Entry::Dir(d) => category_present(d.children@, c),
            e => entry_category(e) == c,
        }
    }
}

/// `c` is a category that takes the most space below `s` among those that
/// occur there; `Other` when none occurs.
pub open spec fn is_dominant(s: Seq<Entry>, c: FileCategory) -> bool {
    if exists|c2: FileCategory| category_present(s, c2) {
        &&& category_present(s, c)
        &&& forall|c2: FileCategory|
            category_present(s, c2) ==> category_total(s, c2) <= category_total(s, c)
    } else {
        c == FileCategory::Other
    }
}

/// No category total below `s` exceeds what a `u64` holds.
pub open spec fn category_totals_fit(s: Seq<Entry>) -> bool {
    forall|c: FileCategory| category_total(s, c) <= u64::MAX
}

pub proof fn lemma_category_total_nonneg(s: Seq<Entry>, c: FileCategory)
    ensures
        category_total(s, c) >= 0,
    decreases s,
{
    if s.len() > 0 {
        lemma_category_total_nonneg(s.drop_last(), c);
        if let Entry::Dir(d) = s.last() {
            lemma_category_total_nonneg(d.children@, c);
        }
    }
}

/// Adds the category totals and presence of the entries below `children`
/// to `acc` and `present`, indexed by `category_index`.
fn accumulate_categories(children: &Vec<Entry>, acc: &mut Vec<u64>, present: &mut Vec<bool>)
    requires
        old(acc)@.len() == 10,
        old(present)@.len() == 10,
        forall|c: FileCategory|
            old(acc)@[category_index(c)] + category_total(children@, c) <= u64::MAX,
    ensures
        final(acc)@.len() == 10,
        final(present)@.len() == 10,
        forall|c: FileCategory|
            #[trigger] final(acc)@[category_index(c)] == old(acc)@[category_index(c)] + category_total(
                children@,
                c,
            ),
        forall|c: FileCategory|
            #[trigger] final(present)@[category_index(c)] == (old(present)@[category_index(c)]
                || category_present(children@, c)),
    decreases children@,
{
    let n = children.len();
    let ghost acc0 = acc@;
    let ghost present0 = present@;
    let mut i: usize = 0;
    proof {
        assert(children@.take(0) =~= Seq::<Entry>::empty());
    }
    while i < n
        invariant
            n == children@.len(),
            i <= n,
            acc@.len() == 10,
            present@.len() == 10,
            forall|c: FileCategory|
                acc0[category_index(c)] + category_total(children@, c) <= u64::MAX,
            forall|c: FileCategory|
                #[trigger] acc@[category_index(c)] == acc0[category_index(c)] + category_total(
                    children@.take(i as int),
                    c,
                ),
            forall|c: FileCategory|
                #[trigger] present@[category_index(c)] == (present0[category_index(c)]
                    || category_present(children@.take(i as int), c)),
        decreases n - i,
    {
        let ghost pre = children@.take(i as int);
        proof {
            assert(children@.take(i + 1).drop_last() =~= pre);
            assert(children@.take(i + 1).last() == children@[i as int]);
        }
        match &children[i] {
            Entry::Dir(d) => {
                proof {
                    assert forall|c: FileCategory|
                        acc@[category_index(c)] + category_total(d.children@, c) <= u64::MAX by {
                        lemma_category_total_bound(children@, i as int, c);
                    }
                }
                accumulate_categories(&d.children, acc, present);
            },
            e => {
                let c = categorize_entry(e);
                let k = category_index_exec(c);
                let sz = e.size();
                proof {
                    lemma_category_total_bound(children@, i as int, c);
                }
                let v = acc[k] + sz;
                acc.set(k, v);
                present.set(k, true);
                proof {
                    assert forall|c2: FileCategory| #[trigger]
                        acc@[category_index(c2)] == acc0[category_index(c2)] + category_total(
                            children@.take(i + 1),
                            c2,
                        ) by {
                        if category_index(c2) == k {
                            assert(c2 == c);
                        }
                    }
                    assert forall|c2: FileCategory| #[trigger]
                        present@[category_index(c2)] == (present0[category_index(c2)]
                            || category_present(children@.take(i + 1), c2)) by {
                        if category_index(c2) == k {
                            assert(c2 == c);
                        }
                    }
                }
            },
        }
        i = i + 1;
    }
    proof {
        assert(children@.take(n as int) =~= children@);
    }
}

/// The total of a prefix plus the total below one more entry stays within
/// the total of the whole sequence.
proof fn lemma_category_total_bound(s: Seq<Entry>, i: int, c: FileCategory)
    requires
        0 <= i < s.len(),
    ensures
        category_total(s.take(i), c) + (match s[i] {
            Entry::Dir(d) => category_total(d.children@, c),
            e => if entry_category(e) == c {
                entry_size(e) as int
            } else {
                0
            },
        }) <= category_total(s, c),
    decreases s.len(),
{
    assert(s.take(i + 1).drop_last() =~= s.take(i));
    lemma_prefix_total_le(s, i + 1, c);
}

proof fn lemma_prefix_total_le(s: Seq<Entry>, j: int, c: FileCategory)
    requires
        0 <= j <= s.len(),
    ensures
        category_total(s.take(j), c) <= category_total(s, c),
    decreases s.len() - j,
{
    if j < s.len() {
        lemma_prefix_total_le(s, j + 1, c);
        assert(s.take(j + 1).drop_last() =~= s.take(j));
        match s[j] {
            Entry::Dir(d) => lemma_category_total_nonneg(d.children@, c),
            _ => {},
        }
    } else {
        assert(s.take(j) =~= s);
    }
}

/// The category taking the most space among the entries below `children`
/// (directories looked into); `Other` when there are none.
pub fn dominant_of(children: &Vec<Entry>) -> (c: FileCategory)
    requires
        category_totals_fit(children@),
    ensures
        is_dominant(children@, c),
{
    let mut acc: Vec<u64> = vec![0u64, 0, 0, 0, 0, 0, 0, 0, 0, 0];
    let mut present: Vec<bool> = vec![false, false, false, false, false, false, false, false, false, false];
    proof {
        assert forall|c: FileCategory| acc@[category_index(c)] + category_total(children@, c)
            <= u64::MAX by {
            lemma_category_total_nonneg(children@, c);
        }
    }
    accumulate_categories(children, &mut acc, &mut present);
    let mut best: usize = 10;
    let mut i: usize = 0;
    while i < 10
        invariant
            acc@.len() == 10,
            present@.len() == 10,
            i <= 10,
            best <= 10,
            forall|c: FileCategory|
                #[trigger] acc@[category_index(c)] == category_total(children@, c),
            forall|c: FileCategory|
                #[trigger] present@[category_index(c)] == category_present(children@, c),
            best == 10 ==> forall|k: int| 0 <= k < i ==> !present@[k],
            best < 10 ==> best < i && present@[best as int] && forall|k: int|
                0 <= k < i && present@[k] ==> acc@[k] <= acc@[best as int],
        decreases 10 - i,
    {
        if present[i] && (best == 10 || acc[i] > acc[best]) {
            best = i;
        }
        i = i + 1;
    }
    if best == 10 {
        proof {
            assert forall|c2: FileCategory| !category_present(children@, c2) by {
                assert(!present@[category_index(c2)]);
            }
        }
        FileCategory::Other
    } else {
        let c = category_at_exec(best);
        proof {
            assert(category_present(children@, c));
            assert forall|c2: FileCategory| category_present(children@, c2) implies category_total(
                children@,
                c2,
            ) <= category_total(children@, c) by {
                assert(present@[category_index(c2)]);
            }
        }
        c
    }
}

/// The category taking the most space below a directory.
pub fn compute_dominant(dir: &DirNode) -> (c: FileCategory)
    requires
        category_totals_fit(dir.children@),
    ensures
        is_dominant(dir.children@, c),
{
    dominant_of(&dir.children)
}

/// The dominant category of a directory, computed from its contents at run
/// time (the slow path; a finished scan also records it in `dominant_cat`).
pub fn dominant_category(dir: &DirNode) -> (c: FileCategory)
    requires
        category_totals_fit(dir.children@),
    ensures
        is_dominant(dir.children@, c),
{
    compute_dominant(dir)
}

} // verus!
