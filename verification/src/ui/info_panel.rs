use vstd::prelude::*;

use crate::scanner::types::{DirNode, Entry};

verus! {

/// What the user did in the file list.
#[derive(Debug, Clone, Copy, PartialEq, Eq, Structural)]
pub enum FileListAction {
    Nothing,
    Select(usize),
    Drill(usize),
}

/// The action a row of the file list produces: a double click on a
/// directory row enters it, a click on a row that is not selected selects it;
/// otherwise the action found so far stands.
pub fn row_action(
    so_far: FileListAction,
    row: usize,
    is_dir: bool,
    is_selected: bool,
    clicked: bool,
    double_clicked: bool,
) -> (r: FileListAction)
    ensures
        r == (if double_clicked {
            if is_dir {
                FileListAction::Drill(row)
            } else {
                so_far
            }
        } else if clicked && !is_selected {
            FileListAction::Select(row)
        } else {
            so_far
        }),
{
    if double_clicked {
        if is_dir {
            FileListAction::Drill(row)
        } else {
            so_far
        }
    } else if clicked && !is_selected {
        FileListAction::Select(row)
    } else {
        so_far
    }
}

/// Position of the first block standing for the child `entry_index`, given
/// the child index of each block.
pub fn position_of_entry(entry_indices: &Vec<usize>, entry_index: usize) -> (r: Option<usize>)
    ensures
        match r {
            Some(p) => p < entry_indices@.len() && entry_indices@[p as int] == entry_index && forall|k: int|
                0 <= k < p ==> #[trigger] entry_indices@[k] != entry_index,
            None => forall|k: int| 0 <= k < entry_indices@.len() ==> #[trigger] entry_indices@[k] != entry_index,
        },
{
    let n = entry_indices.len();
    let mut i: usize = 0;
    while i < n
        invariant
            n == entry_indices@.len(),
            i <= n,
            forall|k: int| 0 <= k < i ==> #[trigger] entry_indices@[k] != entry_index,
        decreases n - i,
    {
        if entry_indices[i] == entry_index {
            return Some(i);
        }
        i = i + 1;
    }
    None
}

/// Number of subdirectories among `s[0..hi]`.
pub open spec fn subdirs_upto(s: Seq<Entry>, hi: int) -> int
    decreases hi,
{
    if hi <= 0 {
        0
    } else {
        subdirs_upto(s, hi - 1) + if s[hi - 1] is Dir {
            1int
        } else {
            0int
        }
    }
}

proof fn lemma_subdirs_upto_le(s: Seq<Entry>, hi: int)
    requires
        0 <= hi,
    ensures
        0 <= subdirs_upto(s, hi) <= hi,
    decreases hi,
{
    if hi > 0 {
        lemma_subdirs_upto_le(s, hi - 1);
    }
}

/// Whether an entry is a directory.
pub open spec fn is_dir_entry() -> spec_fn(Entry) -> bool {
    |e: Entry| e is Dir
}

proof fn lemma_subdirs_upto_filter(s: Seq<Entry>, hi: int)
    requires
        0 <= hi <= s.len(),
    ensures
        subdirs_upto(s, hi) == s.take(hi).filter(is_dir_entry()).len(),
    decreases hi,
{
    reveal(Seq::filter);
    if hi > 0 {
        lemma_subdirs_upto_filter(s, hi - 1);
        let t = s.take(hi);
        assert(t.drop_last() =~= s.take(hi - 1));
        assert(t.last() == s[hi - 1]);
    } else {
        assert(s.take(0) =~= Seq::<Entry>::empty());
    }
}

/// Law: the subdirectory count is the number of children that are
/// directories; files, links, "Others" blocks and unreadable directories
/// never add to it.
pub proof fn law_subdir_count_counts_directories(s: Seq<Entry>)
    ensures
        subdirs_upto(s, s.len() as int) == s.filter(is_dir_entry()).len(),
        subdirs_upto(s, s.len() as int) <= s.len(),
        (forall|i: int| 0 <= i < s.len() ==> !(#[trigger] s[i] is Dir)) ==> subdirs_upto(
            s,
            s.len() as int,
        ) == 0,
{
    lemma_subdirs_upto_filter(s, s.len() as int);
    assert(s.take(s.len() as int) =~= s);
    lemma_subdirs_upto_le(s, s.len() as int);
    if forall|i: int| 0 <= i < s.len() ==> !(#[trigger] s[i] is Dir) {
        lemma_no_dirs_count(s, s.len() as int);
    }
}

proof fn lemma_no_dirs_count(s: Seq<Entry>, hi: int)
    requires
        0 <= hi <= s.len(),
        forall|i: int| 0 <= i < s.len() ==> !(#[trigger] s[i] is Dir),
    ensures
        subdirs_upto(s, hi) == 0,
    decreases hi,
{
    if hi > 0 {
        lemma_no_dirs_count(s, hi - 1);
    }
}

/// Number of subdirectories directly in a directory, as the detail panel
/// shows it.
pub fn subdir_count(dir: &DirNode) -> (r: usize)
    ensures
        r == subdirs_upto(dir.children@, dir.children@.len() as int),
        r == dir.children@.filter(is_dir_entry()).len(),
{
    let n = dir.children.len();
    let mut count: usize = 0;
    let mut i: usize = 0;
    while i < n
        invariant
            n == dir.children@.len(),
            i <= n,
            count == subdirs_upto(dir.children@, i as int),
        decreases n - i,
    {
        proof {
            lemma_subdirs_upto_le(dir.children@, i as int);
        }
        match &dir.children[i] {
            Entry::Dir(_) => {
                count = count + 1;
            },
            _ => {},
        }
        i = i + 1;
    }
    proof {
        law_subdir_count_counts_directories(dir.children@);
    }
    count
}

} // verus!
