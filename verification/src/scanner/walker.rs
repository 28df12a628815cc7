use vstd::prelude::*;

use crate::path::{display_name, is_sep, join, path_display_name, path_join};
use crate::scanner::error::ScanError;
use crate::scanner::types::{entry_size, size_w, sizes_sum, DirNode, Entry, FileEntry};
use crate::sums::{lemma_sum_of_add, lemma_sum_of_nonneg, lemma_sum_of_push, sum_of};
use crate::treemap::color::FileCategory;

verus! {

/// Attribute bit of a directory in a find record.
pub const FILE_ATTRIBUTE_DIRECTORY: u32 = 0x10;

/// Attribute bit of a reparse point (a link or junction) in a find record.
pub const FILE_ATTRIBUTE_REPARSE_POINT: u32 = 0x400;

/// Error code of a refused access.
pub const ERROR_ACCESS_DENIED: u32 = 5;

/// The size of a file from the high and low halves of its find record.
pub fn file_size_from_parts(high: u32, low: u32) -> (r: u64)
    ensures
        r == high as int * 0x1_0000_0000 + low as int,
{
    (high as u64) * 0x1_0000_0000u64 + (low as u64)
}

pub open spec fn extended_prefix() -> Seq<char> {
    seq!['\\', '\\', '?', '\\']
}

/// The pattern that lists a directory given its absolute path: the path in
/// extended-length form (prefixed with `\\?\` unless it already is), then
/// `\*`.
pub open spec fn search_pattern_of(abs: Seq<char>) -> Seq<char> {
    let base = if abs.len() >= 4 && abs.take(4) == extended_prefix() {
        abs
    } else {
        extended_prefix() + abs
    };
    base + seq!['\\', '*']
}

pub fn search_pattern(abs_path: &str) -> (r: String)
    ensures
        r@ == search_pattern_of(abs_path@),
{
    proof {
        reveal_strlit("\\\\?\\");
        reveal_strlit("\\*");
    }
    let n = abs_path.unicode_len();
    let extended = n >= 4 && abs_path.get_char(0) == '\\' && abs_path.get_char(1) == '\\'
        && abs_path.get_char(2) == '?' && abs_path.get_char(3) == '\\';
    proof {
        if n >= 4 {
            if extended {
                assert(abs_path@.take(4) =~= extended_prefix());
            } else {
                assert(abs_path@.take(4)[0] == abs_path@[0]);
                assert(abs_path@.take(4)[1] == abs_path@[1]);
                assert(abs_path@.take(4)[2] == abs_path@[2]);
                assert(abs_path@.take(4)[3] == abs_path@[3]);
            }
        }
    }
    let mut r = if extended {
        abs_path.to_owned()
    } else {
        let mut s = String::from_str("\\\\?\\");
        s.append(abs_path);
        s
    };
    r.append("\\*");
    r
}

/// The error a failed listing reports: a refused access, or the Win32 code.
pub fn listing_error(path: &str, code: u32) -> (r: ScanError)
    ensures
        code == ERROR_ACCESS_DENIED ==> (r matches ScanError::AccessDenied { path: p } && p@ == path@),
        code != ERROR_ACCESS_DENIED ==> r == ScanError::Win32(code),
{
    if code == ERROR_ACCESS_DENIED {
        ScanError::AccessDenied { path: path.to_owned() }
    } else {
        ScanError::Win32(code)
    }
}

/// A directory being scanned: its files and links as they are listed, the
/// subdirectories still to scan, and then the results of those scans.
pub struct DirScan {
    pub node: DirNode,
    pub subdirs: Vec<String>,
}

/// The total of a scan is the sum of the sizes of its children: files count
/// their size, subdirectories their total, links and unreadable
/// directories nothing.
pub open spec fn totals_consistent(s: DirScan) -> bool {
    sizes_sum(s.node.children@) == s.node.total_size
}

/// The name `.` or `..`, or no name: entries a listing skips.
pub open spec fn is_skipped_name(n: Seq<char>) -> bool {
    n.len() == 0 || n == seq!['.'] || n == seq!['.', '.']
}

/// The files an entry counts: one for a file, the count of a subdirectory.
pub open spec fn files_w() -> spec_fn(Entry) -> int {
    |e: Entry|
        match e {
            Entry::File(_) => 1int,
            Entry::Dir(d) => d.file_count as int,
            _ => 0int,
        }
}

/// The number of files a sequence of entries counts.
pub open spec fn files_sum(s: Seq<Entry>) -> int {
    sum_of(s, files_w())
}

/// `d` is as a scan builds it, at every depth: its total is the sum of its
/// children's sizes and its file count the sum of theirs; no child is named
/// `.` or `..`; a linked directory is recorded as a link under `d`'s path
/// and not entered; nothing is marked unreadable or given a category yet.
pub open spec fn dir_scanned(d: DirNode) -> bool
    decreases d, 2int,
{
    &&& d.total_size == sizes_sum(d.children@)
    &&& d.file_count == files_sum(d.children@)
    &&& !d.access_denied
    &&& d.dominant_cat == FileCategory::Other
    &&& entries_scanned(d.path@, d.children@)
}

pub open spec fn entries_scanned(parent: Seq<char>, s: Seq<Entry>) -> bool
    decreases s, 1int,
{
    forall|i: int| 0 <= i < s.len() ==> entry_scanned(parent, #[trigger] s[i])
}

pub open spec fn entry_scanned(parent: Seq<char>, e: Entry) -> bool
    decreases e, 0int,
{
    match e {
        Entry::File(f) => !is_skipped_name(f.name@),
        Entry::Symlink(p) => exists|n: Seq<char>| !is_skipped_name(n) && p@ == #[trigger] join(parent, n),
        Entry::Dir(c) => dir_scanned(c),
        Entry::AccessDenied { .. } => true,
        Entry::Others(_) => false,
    }
}

proof fn lemma_scanned_push(parent: Seq<char>, s: Seq<Entry>, x: Entry)
    requires
        entries_scanned(parent, s),
        entry_scanned(parent, x),
    ensures
        entries_scanned(parent, s.push(x)),
{
    assert forall|i: int| 0 <= i < s.push(x).len() implies entry_scanned(
        parent,
        #[trigger] s.push(x)[i],
    ) by {
        if i < s.len() {
            assert(s.push(x)[i] == s[i]);
        }
    }
}

/// A listing record that stands for a file: not `.` or `..`, and not a
/// directory.
pub open spec fn is_file_record(name: Seq<char>, attributes: u32) -> bool {
    !is_skipped_name(name) && attributes & FILE_ATTRIBUTE_DIRECTORY == 0
}

/// One record of a directory listing: the entry's name, its attribute bits
/// and the high and low halves of its size.
#[derive(Debug, Clone)]
pub struct FindRecord {
    pub name: String,
    pub attributes: u32,
    pub size_high: u32,
    pub size_low: u32,
}

pub open spec fn record_size(r: FindRecord) -> int {
    r.size_high as int * 0x1_0000_0000 + r.size_low as int
}

/// The bytes a record adds to its directory: the size of a file, nothing
/// for anything else.
pub open spec fn record_bytes_w() -> spec_fn(FindRecord) -> int {
    |r: FindRecord|
        if is_file_record(r.name@, r.attributes) {
            record_size(r)
        } else {
            0
        }
}

/// The files a record adds to its directory: one for a file.
pub open spec fn record_files_w() -> spec_fn(FindRecord) -> int {
    |r: FindRecord|
        if is_file_record(r.name@, r.attributes) {
            1int
        } else {
            0int
        }
}

/// What the listing `recs` of the directory `path` gives, record by record:
/// `.` and `..` are skipped, a linked directory becomes a link to its path,
/// a directory is left to scan (in `subdirs`), and a file becomes a file
/// entry with its name and size.
pub open spec fn listed(
    path: Seq<char>,
    recs: Seq<FindRecord>,
    children: Seq<Entry>,
    subdirs: Seq<Seq<char>>,
) -> bool
    decreases recs.len(),
{
    if recs.len() == 0 {
        children.len() == 0 && subdirs.len() == 0
    } else {
        let r = recs.last();
        let full = join(path, r.name@);
        let is_dir = r.attributes & FILE_ATTRIBUTE_DIRECTORY != 0;
        let is_reparse = r.attributes & FILE_ATTRIBUTE_REPARSE_POINT != 0;
        if is_skipped_name(r.name@) {
            listed(path, recs.drop_last(), children, subdirs)
        } else if is_dir && is_reparse {
            &&& children.len() > 0
            &&& children.last() matches Entry::Symlink(p) && p@ == full
            &&& listed(path, recs.drop_last(), children.drop_last(), subdirs)
        } else if is_dir {
            &&& subdirs.len() > 0
            &&& subdirs.last() == full
            &&& listed(path, recs.drop_last(), children, subdirs.drop_last())
        } else {
            &&& children.len() > 0
            &&& children.last() matches Entry::File(f) && f.name@ == r.name@ && f.size == record_size(r)
            &&& listed(path, recs.drop_last(), children.drop_last(), subdirs)
        }
    }
}

pub open spec fn string_views(s: Seq<String>) -> Seq<Seq<char>> {
    s.map_values(|x: String| x@)
}

/// The entries that the results of scanning subdirectories add: a scanned
/// subdirectory, or an unreadable one by its path; other failures add
/// nothing.
pub open spec fn result_entries(results: Seq<(String, Result<DirNode, ScanError>)>) -> Seq<Entry>
    decreases results.len(),
{
    if results.len() == 0 {
        Seq::empty()
    } else {
        let prev = result_entries(results.drop_last());
        match results.last().1 {
            Ok(c) => prev.push(Entry::Dir(c)),
            Err(ScanError::AccessDenied { .. }) => prev.push(Entry::AccessDenied { path: results.last().0 }),
            Err(_) => prev,
        }
    }
}

pub open spec fn result_bytes_w() -> spec_fn((String, Result<DirNode, ScanError>)) -> int {
    |x: (String, Result<DirNode, ScanError>)|
        match x.1 {
            Ok(c) => c.total_size as int,
            Err(_) => 0int,
        }
}

pub open spec fn result_files_w() -> spec_fn((String, Result<DirNode, ScanError>)) -> int {
    |x: (String, Result<DirNode, ScanError>)|
        match x.1 {
            Ok(c) => c.file_count as int,
            Err(_) => 0int,
        }
}

/// Every subdirectory that was scanned is as a scan builds it.
pub open spec fn results_scanned(results: Seq<(String, Result<DirNode, ScanError>)>) -> bool {
    forall|i: int| 0 <= i < results.len() ==> ((#[trigger] results[i]).1 matches Ok(c) ==> dir_scanned(c))
}

proof fn lemma_prefix_sum_le<A>(s: Seq<A>, j: int, w: spec_fn(A) -> int)
    requires
        0 <= j <= s.len(),
        forall|x: A| #[trigger] w(x) >= 0,
    ensures
        sum_of(s.take(j), w) <= sum_of(s, w),
        sum_of(s.take(j), w) >= 0,
{
    assert(s =~= s.take(j) + s.skip(j));
    lemma_sum_of_add(s.take(j), s.skip(j), w);
    lemma_sum_of_nonneg(s.skip(j), w);
    lemma_sum_of_nonneg(s.take(j), w);
}

impl DirScan {
    /// An empty scan of `path`, named by the path's file name (or the whole
    /// path for a drive root).
    pub fn new(path: &str) -> (r: DirScan)
        ensures
            r.node.path@ == path@,
            r.node.name@ == display_name(path@),
            r.node.total_size == 0,
            r.node.file_count == 0,
            r.node.children@.len() == 0,
            !r.node.access_denied,
            r.node.dominant_cat == FileCategory::Other,
            r.subdirs@.len() == 0,
            totals_consistent(r),
            dir_scanned(r.node),
    {
        let r = DirScan {
            node: DirNode {
                path: path.to_owned(),
                name: path_display_name(path),
                total_size: 0,
                file_count: 0,
                children: Vec::new(),
                access_denied: false,
                dominant_cat: FileCategory::Other,
            },
            subdirs: Vec::new(),
        };
        proof {
            assert(r.node.children@ =~= Seq::<Entry>::empty());
        }
        r
    }

    /// Takes one record of the listing: `.`, `..` and empty names are
    /// skipped; a directory that is a reparse point is kept as a link and not
    /// followed; another directory is queued for scanning; a file is added
    /// with its size to the totals.
    pub fn add_find_entry(&mut self, name: &str, attributes: u32, size_high: u32, size_low: u32)
        requires
            is_file_record(name@, attributes) ==> old(self).node.total_size + (size_high as int
                * 0x1_0000_0000 + size_low as int) <= u64::MAX,
            is_file_record(name@, attributes) ==> old(self).node.file_count < u64::MAX,
        ensures
            final(self).node.path == old(self).node.path,
            final(self).node.name == old(self).node.name,
            final(self).node.access_denied == old(self).node.access_denied,
            final(self).node.dominant_cat == old(self).node.dominant_cat,
            totals_consistent(*old(self)) ==> totals_consistent(*final(self)),
            dir_scanned(old(self).node) ==> dir_scanned(final(self).node),
            ({
                let size = size_high as int * 0x1_0000_0000 + size_low as int;
                let full = join(old(self).node.path@, name@);
                let is_dir = attributes & FILE_ATTRIBUTE_DIRECTORY != 0;
                let is_reparse = attributes & FILE_ATTRIBUTE_REPARSE_POINT != 0;
                if is_skipped_name(name@) {
                    *final(self) == *old(self)
                } else if is_dir && is_reparse {
                    &&& final(self).node.children@.len() == old(self).node.children@.len() + 1
                    &&& final(self).node.children@.drop_last() == old(self).node.children@
                    &&& final(self).node.children@.last() matches Entry::Symlink(p) && p@ == full
                    &&& final(self).subdirs@ == old(self).subdirs@
                    &&& final(self).node.total_size == old(self).node.total_size
                    &&& final(self).node.file_count == old(self).node.file_count
                } else if is_dir {
                    &&& final(self).subdirs@.len() == old(self).subdirs@.len() + 1
                    &&& final(self).subdirs@.drop_last() == old(self).subdirs@
                    &&& final(self).subdirs@.last()@ == full
                    &&& final(self).node.children == old(self).node.children
                    &&& final(self).node.total_size == old(self).node.total_size
                    &&& final(self).node.file_count == old(self).node.file_count
                } else {
                    &&& final(self).node.children@.len() == old(self).node.children@.len() + 1
                    &&& final(self).node.children@.drop_last() == old(self).node.children@
                    &&& final(self).node.children@.last() matches Entry::File(f) && f.name@ == name@
                        && f.size == size
                    &&& final(self).subdirs == old(self).subdirs
                    &&& final(self).node.total_size == old(self).node.total_size + size
                    &&& final(self).node.file_count == old(self).node.file_count + 1
                }
            }),
    {
        let n = name.unicode_len();
        let skipped = n == 0 || (n == 1 && name.get_char(0) == '.') || (n == 2 && name.get_char(0)
            == '.' && name.get_char(1) == '.');
        proof {
            if n == 1 {
                if name@[0] == '.' {
                    assert(name@ =~= seq!['.']);
                }
                assert(name@ != seq!['.', '.']);
            } else if n == 2 {
                if name@[0] == '.' && name@[1] == '.' {
                    assert(name@ =~= seq!['.', '.']);
                }
                assert(name@ != seq!['.']);
            } else if n > 2 {
                assert(name@ != seq!['.']);
                assert(name@ != seq!['.', '.']);
            }
        }
        if skipped {
            return;
        }
        let is_dir = attributes & FILE_ATTRIBUTE_DIRECTORY != 0;
        let is_reparse = attributes & FILE_ATTRIBUTE_REPARSE_POINT != 0;
        let ghost before = self.node.children@;
        if is_dir {
            let full = path_join(self.node.path.as_str(), name);
            if is_reparse {
                self.node.children.push(Entry::Symlink(full));
                proof {
                    lemma_sum_of_push(before, self.node.children@.last(), size_w());
                    lemma_sum_of_push(before, self.node.children@.last(), files_w());
                    if dir_scanned(old(self).node) {
                        assert(entry_scanned(self.node.path@, self.node.children@.last()));
                        lemma_scanned_push(self.node.path@, before, self.node.children@.last());
                    }
                    assert(self.node.children@ == before.push(self.node.children@.last()));
                }
            } else {
                self.subdirs.push(full);
            }
        } else {
            let size = file_size_from_parts(size_high, size_low);
            self.node.children.push(Entry::File(FileEntry { name: name.to_owned(), size }));
            self.node.total_size = self.node.total_size + size;
            self.node.file_count = self.node.file_count + 1;
            proof {
                lemma_sum_of_push(before, self.node.children@.last(), size_w());
                lemma_sum_of_push(before, self.node.children@.last(), files_w());
                if dir_scanned(old(self).node) {
                    lemma_scanned_push(self.node.path@, before, self.node.children@.last());
                }
                assert(self.node.children@ == before.push(self.node.children@.last()));
            }
        }
    }

    /// Takes the result of scanning one queued subdirectory: a scanned
    /// subdirectory adds its totals and becomes a child; a refused one is
    /// recorded as unreadable; any other failure is skipped.
    pub fn add_subdir_result(&mut self, subdir_path: String, result: Result<DirNode, ScanError>)
        requires
            result matches Ok(child) ==> old(self).node.total_size + child.total_size <= u64::MAX
                && old(self).node.file_count + child.file_count <= u64::MAX,
        ensures
            final(self).subdirs == old(self).subdirs,
            final(self).node.path == old(self).node.path,
            final(self).node.name == old(self).node.name,
            final(self).node.access_denied == old(self).node.access_denied,
            final(self).node.dominant_cat == old(self).node.dominant_cat,
            totals_consistent(*old(self)) ==> totals_consistent(*final(self)),
            dir_scanned(old(self).node) && (result matches Ok(c) ==> dir_scanned(c)) ==> dir_scanned(
                final(self).node,
            ),
            match result {
                Ok(child) => {
                    &&& final(self).node.children@ == old(self).node.children@.push(Entry::Dir(child))
                    &&& final(self).node.total_size == old(self).node.total_size + child.total_size
                    &&& final(self).node.file_count == old(self).node.file_count + child.file_count
                },
                Err(ScanError::AccessDenied { .. }) => {
                    &&& final(self).node.children@ == old(self).node.children@.push(
                        Entry::AccessDenied { path: subdir_path },
                    )
                    &&& final(self).node.total_size == old(self).node.total_size
                    &&& final(self).node.file_count == old(self).node.file_count
                },
                Err(_) => *final(self) == *old(self),
            },
    {
        let ghost before = self.node.children@;
        match result {
            Ok(child) => {
                self.node.total_size = self.node.total_size + child.total_size;
                self.node.file_count = self.node.file_count + child.file_count;
                self.node.children.push(Entry::Dir(child));
                proof {
                    lemma_sum_of_push(before, self.node.children@.last(), size_w());
                    lemma_sum_of_push(before, self.node.children@.last(), files_w());
                    if dir_scanned(old(self).node) && dir_scanned(child) {
                        lemma_scanned_push(self.node.path@, before, self.node.children@.last());
                    }
                }
            },
            Err(ScanError::AccessDenied { .. }) => {
                self.node.children.push(Entry::AccessDenied { path: subdir_path });
                proof {
                    lemma_sum_of_push(before, self.node.children@.last(), size_w());
                    lemma_sum_of_push(before, self.node.children@.last(), files_w());
                    if dir_scanned(old(self).node) {
                        lemma_scanned_push(self.node.path@, before, self.node.children@.last());
                    }
                }
            },
            Err(_) => {},
        }
    }
}

impl DirScan {
    /// The scan of `path` after its whole listing: each record added in
    /// order, as `add_find_entry` adds it.
    pub fn from_listing(path: &str, records: &Vec<FindRecord>) -> (r: DirScan)
        requires
            sum_of(records@, record_bytes_w()) <= u64::MAX,
            sum_of(records@, record_files_w()) <= u64::MAX,
        ensures
            r.node.path@ == path@,
            r.node.name@ == display_name(path@),
            !r.node.access_denied,
            r.node.dominant_cat == FileCategory::Other,
            r.node.total_size == sum_of(records@, record_bytes_w()),
            r.node.file_count == sum_of(records@, record_files_w()),
            listed(path@, records@, r.node.children@, string_views(r.subdirs@)),
            totals_consistent(r),
            dir_scanned(r.node),
    {
        let mut s = DirScan::new(path);
        let n = records.len();
        let mut i: usize = 0;
        proof {
            assert(records@.take(0) =~= Seq::<FindRecord>::empty());
            assert(string_views(s.subdirs@) =~= Seq::<Seq<char>>::empty());
        }
        while i < n
            invariant
                n == records@.len(),
                i <= n,
                s.node.path@ == path@,
                s.node.name@ == display_name(path@),
                !s.node.access_denied,
                s.node.dominant_cat == FileCategory::Other,
                s.node.total_size == sum_of(records@.take(i as int), record_bytes_w()),
                s.node.file_count == sum_of(records@.take(i as int), record_files_w()),
                sum_of(records@, record_bytes_w()) <= u64::MAX,
                sum_of(records@, record_files_w()) <= u64::MAX,
                listed(path@, records@.take(i as int), s.node.children@, string_views(s.subdirs@)),
                totals_consistent(s),
                dir_scanned(s.node),
            decreases n - i,
        {
            let rec = &records[i];
            let ghost before = s;
            proof {
                let t = records@.take(i + 1);
                assert(t =~= records@.take(i as int).push(*rec));
                lemma_sum_of_push(records@.take(i as int), *rec, record_bytes_w());
                lemma_sum_of_push(records@.take(i as int), *rec, record_files_w());
                lemma_prefix_sum_le(records@, i + 1, record_bytes_w());
                lemma_prefix_sum_le(records@, i + 1, record_files_w());
            }
            s.add_find_entry(rec.name.as_str(), rec.attributes, rec.size_high, rec.size_low);
            proof {
                let t = records@.take(i + 1);
                assert(t.drop_last() =~= records@.take(i as int));
                assert(t.last() == *rec);
                if !is_skipped_name(rec.name@) {
                    let is_dir = rec.attributes & FILE_ATTRIBUTE_DIRECTORY != 0;
                    let is_reparse = rec.attributes & FILE_ATTRIBUTE_REPARSE_POINT != 0;
                    if is_dir && !is_reparse {
                        assert(string_views(s.subdirs@).drop_last() =~= string_views(before.subdirs@));
                        assert(string_views(s.subdirs@).last() == s.subdirs@.last()@);
                    } else {
                        assert(string_views(s.subdirs@) =~= string_views(before.subdirs@));
                    }
                }
                assert(listed(path@, t, s.node.children@, string_views(s.subdirs@)));
            }
            i = i + 1;
        }
        proof {
            assert(records@.take(n as int) =~= records@);
        }
        s
    }

    /// The directory once its subdirectories are scanned: each result in
    /// order adds a scanned subdirectory, or an unreadable one by its path
    /// (other failures add nothing), as `add_subdir_result` adds it.
    pub fn into_dir(self, results: Vec<(String, Result<DirNode, ScanError>)>) -> (r: DirNode)
        requires
            self.node.total_size + sum_of(results@, result_bytes_w()) <= u64::MAX,
            self.node.file_count + sum_of(results@, result_files_w()) <= u64::MAX,
        ensures
            r.path == self.node.path,
            r.name == self.node.name,
            r.access_denied == self.node.access_denied,
            r.dominant_cat == self.node.dominant_cat,
            r.children@ == self.node.children@ + result_entries(results@),
            r.total_size == self.node.total_size + sum_of(results@, result_bytes_w()),
            r.file_count == self.node.file_count + sum_of(results@, result_files_w()),
            totals_consistent(self) ==> sizes_sum(r.children@) == r.total_size,
            dir_scanned(self.node) && results_scanned(results@) ==> dir_scanned(r),
    {
        let ghost start = self;
        let ghost all = results@;
        let mut s = self;
        let mut pending = results;
        let n = pending.len();
        let mut k: usize = 0;
        proof {
            assert(all.take(0) =~= Seq::<(String, Result<DirNode, ScanError>)>::empty());
            assert(s.node.children@ =~= start.node.children@ + result_entries(all.take(0)));
            assert(all.skip(0) =~= all);
        }
        while k < n
            invariant
                n == all.len(),
                k <= n,
                pending@ == all.skip(k as int),
                s.node.path == start.node.path,
                s.node.name == start.node.name,
                s.node.access_denied == start.node.access_denied,
                s.node.dominant_cat == start.node.dominant_cat,
                s.node.children@ == start.node.children@ + result_entries(all.take(k as int)),
                s.node.total_size == start.node.total_size + sum_of(all.take(k as int), result_bytes_w()),
                s.node.file_count == start.node.file_count + sum_of(all.take(k as int), result_files_w()),
                start.node.total_size + sum_of(all, result_bytes_w()) <= u64::MAX,
                start.node.file_count + sum_of(all, result_files_w()) <= u64::MAX,
                totals_consistent(start) ==> totals_consistent(s),
                dir_scanned(start.node) && results_scanned(all) ==> dir_scanned(s.node),
            decreases n - k,
        {
            let item = pending.remove(0);
            proof {
                assert(all[k as int] == item);
                assert(pending@ =~= all.skip(k + 1));
                let t = all.take(k + 1);
                assert(t =~= all.take(k as int).push(item));
                lemma_sum_of_push(all.take(k as int), item, result_bytes_w());
                lemma_sum_of_push(all.take(k as int), item, result_files_w());
                lemma_prefix_sum_le(all, k + 1, result_bytes_w());
                lemma_prefix_sum_le(all, k + 1, result_files_w());
                assert(t.drop_last() =~= all.take(k as int));
                if results_scanned(all) {
                    assert(all[k as int].1 matches Ok(c) ==> dir_scanned(c));
                }
            }
            let ghost before = s;
            let (subdir_path, result) = item;
            s.add_subdir_result(subdir_path, result);
            proof {
                let t = all.take(k + 1);
                assert(t.last() == item);
                assert(s.node.children@ =~= start.node.children@ + result_entries(t));
            }
            k = k + 1;
        }
        proof {
            assert(all.take(n as int) =~= all);
        }
        s.node
    }
}

} // verus!
