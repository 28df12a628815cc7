use std::sync::Arc;

use vstd::prelude::*;

use crate::scanner::types::{entry_size, DirNode, Entry};
use crate::snapshot::diff::{diff_level, diff_of_removed, is_level_diff, ChangeType, DiffNode};

verus! {

/// What the comparison view shows: a saved snapshot beside the current scan.
#[derive(Clone)]
pub struct ComparisonData {
    pub snapshot_root: Arc<DirNode>,
    pub snapshot_name: String,
    pub current_scan: Option<Arc<DirNode>>,
}

/// The directory reached from `root` by following the child indices of
/// `nav`, each of which must name a subdirectory.
pub open spec fn resolve_path(root: DirNode, nav: Seq<usize>) -> Option<DirNode>
    decreases nav.len(),
{
    if nav.len() == 0 {
        Some(root)
    } else {
        match resolve_path(root, nav.drop_last()) {
            Some(d) => if nav.last() < d.children@.len() {
                match d.children@[nav.last() as int] {
                    Entry::Dir(c) => Some(c),
                    _ => None,
                }
            } else {
                None
            },
            None => None,
        }
    }
}

/// Follows a navigation stack of child indices down from `root`.
pub fn resolve_by_nav_stack<'a>(root: &'a DirNode, nav_stack: &Vec<usize>) -> (r: Option<&'a DirNode>)
    ensures
        match r {
            Some(d) => resolve_path(*root, nav_stack@) == Some(*d),
            None => resolve_path(*root, nav_stack@) is None,
        },
{
    let mut current: &DirNode = root;
    let n = nav_stack.len();
    let mut i: usize = 0;
    while i < n
        invariant
            n == nav_stack@.len(),
            i <= n,
            resolve_path(*root, nav_stack@.take(i as int)) == Some(*current),
        decreases n - i,
    {
        let idx = nav_stack[i];
        proof {
            assert(nav_stack@.take(i + 1).drop_last() =~= nav_stack@.take(i as int));
        }
        if idx >= current.children.len() {
            proof {
                lemma_resolve_none_extends(*root, nav_stack@, i as int + 1);
            }
            return None;
        }
        match &current.children[idx] {
            Entry::Dir(d) => {
                current = d;
            },
            _ => {
                proof {
                    lemma_resolve_none_extends(*root, nav_stack@, i as int + 1);
                }
                return None;
            },
        }
        i = i + 1;
    }
    proof {
        assert(nav_stack@.take(n as int) =~= nav_stack@);
    }
    Some(current)
}

/// Once a prefix of a path leads nowhere, the whole path leads nowhere.
pub proof fn lemma_resolve_none_extends(root: DirNode, nav: Seq<usize>, j: int)
    requires
        0 <= j <= nav.len(),
        resolve_path(root, nav.take(j)) is None,
    ensures
        resolve_path(root, nav) is None,
    decreases nav.len() - j,
{
    if j < nav.len() {
        assert(nav.take(j + 1).drop_last() =~= nav.take(j));
        lemma_resolve_none_extends(root, nav, j + 1);
    } else {
        assert(nav.take(j) =~= nav);
    }
}

/// `e` is a subdirectory named `name`.
pub open spec fn is_dir_named(e: Entry, name: Seq<char>) -> bool {
    e matches Entry::Dir(d) && d.name@ == name
}

/// Index of the first subdirectory named `name` in `s` at or after `from`,
/// or -1.
pub open spec fn first_dir_named(s: Seq<Entry>, name: Seq<char>, from: int) -> int
    decreases s.len() - from,
{
    if from < 0 || from >= s.len() {
        -1
    } else if is_dir_named(s[from], name) {
        from
    } else {
        first_dir_named(s, name, from + 1)
    }
}

proof fn lemma_first_dir_named(s: Seq<Entry>, name: Seq<char>, from: int)
    requires
        0 <= from <= s.len(),
    ensures
        first_dir_named(s, name, from) == -1 <==> forall|k: int|
            from <= k < s.len() ==> !is_dir_named(#[trigger] s[k], name),
        first_dir_named(s, name, from) != -1 ==> from <= first_dir_named(s, name, from) < s.len()
            && is_dir_named(s[first_dir_named(s, name, from)], name) && forall|k: int|
            from <= k < first_dir_named(s, name, from) ==> !is_dir_named(#[trigger] s[k], name),
    decreases s.len() - from,
{
    if from < s.len() && !is_dir_named(s[from], name) {
        lemma_first_dir_named(s, name, from + 1);
    }
}

/// The first subdirectory of `target` with the name of `source`.
pub fn find_matching_dir_index(source_root: &DirNode, target_root: &DirNode) -> (r: Option<usize>)
    ensures
        match r {
            Some(i) => i == first_dir_named(target_root.children@, source_root.name@, 0),
            None => first_dir_named(target_root.children@, source_root.name@, 0) == -1,
        },
        match r {
            Some(i) => i < target_root.children@.len() && is_dir_named(
                target_root.children@[i as int],
                source_root.name@,
            ) && forall|k: int|
                0 <= k < i ==> !is_dir_named(#[trigger] target_root.children@[k], source_root.name@),
            None => forall|k: int|
                0 <= k < target_root.children@.len() ==> !is_dir_named(
                    #[trigger] target_root.children@[k],
                    source_root.name@,
                ),
        },
{
    let n = target_root.children.len();
    let mut i: usize = 0;
    proof {
        lemma_first_dir_named(target_root.children@, source_root.name@, 0);
    }
    while i < n
        invariant
            n == target_root.children@.len(),
            i <= n,
            forall|k: int|
                0 <= k < i ==> !is_dir_named(#[trigger] target_root.children@[k], source_root.name@),
            first_dir_named(target_root.children@, source_root.name@, 0) == first_dir_named(
                target_root.children@,
                source_root.name@,
                i as int,
            ),
        decreases n - i,
    {
        match &target_root.children[i] {
            Entry::Dir(d) => {
                if d.name == source_root.name {
                    return Some(i);
                }
            },
            _ => {},
        }
        i = i + 1;
    }
    None
}

/// Where the two sides of the comparison view are: each side's navigation
/// from its root and its selected block.
#[derive(Debug, Clone)]
pub struct ComparisonNav {
    pub left_nav_stack: Vec<usize>,
    pub right_nav_stack: Vec<usize>,
    pub left_selected: Option<usize>,
    pub right_selected: Option<usize>,
}

/// The side's navigation after entering subdirectory `d` on the other side:
/// it follows into its first subdirectory of the same name, if it has one
/// (from where it is, or from its root when its path leads nowhere).
pub open spec fn followed(root: DirNode, nav: Seq<usize>, d: DirNode) -> Option<usize> {
    let target = match resolve_path(root, nav) {
        Some(t) => t,
        None => root,
    };
    let j = first_dir_named(target.children@, d.name@, 0);
    if j == -1 {
        None
    } else {
        Some(j as usize)
    }
}

/// Law: when the other side shows a directory, following the entered
/// directory `d` picks the first subdirectory shown there that has `d`'s
/// name: the other side's new navigation (its old one and that index) leads
/// to a child of the directory it showed, named like `d`, and no earlier
/// child is a subdirectory of that name. When no child has that name, it
/// does not move.
pub proof fn law_followed_enters_same_name(root: DirNode, nav: Seq<usize>, d: DirNode)
    requires
        resolve_path(root, nav) is Some,
    ensures
        ({
            let t = resolve_path(root, nav).unwrap();
            match followed(root, nav, d) {
                Some(j) => {
                    &&& j < t.children@.len()
                    &&& resolve_path(root, nav.push(j)) is Some
                    &&& resolve_path(root, nav.push(j)).unwrap().name@ == d.name@
                    &&& t.children@[j as int] == Entry::Dir(resolve_path(root, nav.push(j)).unwrap())
                    &&& forall|k: int|
                        0 <= k < j ==> !(#[trigger] t.children@[k] matches Entry::Dir(x) && x.name@
                            == d.name@)
                },
                None => forall|k: int|
                    0 <= k < t.children@.len() ==> !(#[trigger] t.children@[k] matches Entry::Dir(x)
                        && x.name@ == d.name@),
            }
        }),
{
    let t = resolve_path(root, nav).unwrap();
    assert(t.children@.len() == t.children.len());
    lemma_first_dir_named(t.children@, d.name@, 0);
    let j = first_dir_named(t.children@, d.name@, 0);
    if j != -1 {
        let n2 = nav.push(j as usize);
        assert(n2.drop_last() =~= nav);
        assert(n2.last() == j as usize);
        assert forall|k: int| 0 <= k < j implies !(#[trigger] t.children@[k] matches Entry::Dir(x)
            && x.name@ == d.name@) by {
            assert(!is_dir_named(t.children@[k], d.name@));
        }
    } else {
        assert forall|k: int| 0 <= k < t.children@.len() implies !(#[trigger] t.children@[k] matches Entry::Dir(
            x,
        ) && x.name@ == d.name@) by {
            assert(!is_dir_named(t.children@[k], d.name@));
        }
    }
}

impl ComparisonNav {
    /// Both sides at their roots, nothing selected.
    pub fn new() -> (r: ComparisonNav)
        ensures
            r.left_nav_stack@.len() == 0,
            r.right_nav_stack@.len() == 0,
            r.left_selected is None,
            r.right_selected is None,
    {
        ComparisonNav {
            left_nav_stack: Vec::new(),
            right_nav_stack: Vec::new(),
            left_selected: None,
            right_selected: None,
        }
    }

    /// A double click on the current-scan side (left) on the block of child
    /// `entry_index`: when it is a subdirectory, the left side enters it, and
    /// the snapshot side follows into its subdirectory of the same name.
    pub fn enter_left(&mut self, scan_root: &DirNode, snapshot_root: &DirNode, entry_index: usize)
        ensures
            match resolve_path(*scan_root, old(self).left_nav_stack@) {
                Some(l) if entry_index < l.children@.len() && l.children@[entry_index as int] is Dir => {
                    let d = l.children@[entry_index as int]->Dir_0;
                    &&& final(self).left_nav_stack@ == old(self).left_nav_stack@.push(entry_index)
                    &&& final(self).left_selected is None
                    &&& match followed(*snapshot_root, old(self).right_nav_stack@, d) {
                        Some(j) => final(self).right_nav_stack@ == old(self).right_nav_stack@.push(j)
                            && final(self).right_selected is None,
                        None => final(self).right_nav_stack == old(self).right_nav_stack
                            && final(self).right_selected == old(self).right_selected,
                    }
                },
                _ => *final(self) == *old(self),
            },
    {
        let left = resolve_by_nav_stack(scan_root, &self.left_nav_stack);
        match left {
            Some(l) => {
                if entry_index < l.children.len() {
                    match &l.children[entry_index] {
                        Entry::Dir(d) => {
                            let target = match resolve_by_nav_stack(
                                snapshot_root,
                                &self.right_nav_stack,
                            ) {
                                Some(t) => t,
                                None => snapshot_root,
                            };
                            let found = find_matching_dir_index(d, target);
                            self.left_nav_stack.push(entry_index);
                            self.left_selected = None;
                            match found {
                                Some(j) => {
                                    self.right_nav_stack.push(j);
                                    self.right_selected = None;
                                },
                                None => {},
                            }
                        },
                        _ => {},
                    }
                }
            },
            None => {},
        }
    }

    /// A double click on the snapshot side (right) on the block of child
    /// `entry_index`: when it is a subdirectory, the right side enters it, and
    /// the scan side, when there is a scan, follows into its subdirectory of
    /// the same name.
    pub fn enter_right(&mut self, snapshot_root: &DirNode, scan_root: Option<&DirNode>, entry_index: usize)
        ensures
            match resolve_path(*snapshot_root, old(self).right_nav_stack@) {
                Some(r) if entry_index < r.children@.len() && r.children@[entry_index as int] is Dir => {
                    let d = r.children@[entry_index as int]->Dir_0;
                    &&& final(self).right_nav_stack@ == old(self).right_nav_stack@.push(entry_index)
                    &&& final(self).right_selected is None
                    &&& match scan_root {
                        Some(sr) => match followed(*sr, old(self).left_nav_stack@, d) {
                            Some(j) => final(self).left_nav_stack@ == old(self).left_nav_stack@.push(j)
                                && final(self).left_selected is None,
                            None => final(self).left_nav_stack == old(self).left_nav_stack
                                && final(self).left_selected == old(self).left_selected,
                        },
                        None => final(self).left_nav_stack == old(self).left_nav_stack
                            && final(self).left_selected == old(self).left_selected,
                    }
                },
                _ => *final(self) == *old(self),
            },
    {
        let right = resolve_by_nav_stack(snapshot_root, &self.right_nav_stack);
        match right {
            Some(r) => {
                if entry_index < r.children.len() {
                    match &r.children[entry_index] {
                        Entry::Dir(d) => {
                            let found = match scan_root {
                                Some(sr) => {
                                    let target = match resolve_by_nav_stack(sr, &self.left_nav_stack) {
                                        Some(t) => t,
                                        None => sr,
                                    };
                                    find_matching_dir_index(d, target)
                                },
                                None => None,
                            };
                            self.right_nav_stack.push(entry_index);
                            self.right_selected = None;
                            match found {
                                Some(j) => {
                                    self.left_nav_stack.push(j);
                                    self.left_selected = None;
                                },
                                None => {},
                            }
                        },
                        _ => {},
                    }
                }
            },
            None => {},
        }
    }

    /// The "上层" button of the left side: one level up, selection cleared.
    pub fn left_up(&mut self)
        ensures
            final(self).left_nav_stack@ == (if old(self).left_nav_stack@.len() > 0 {
                old(self).left_nav_stack@.drop_last()
            } else {
                old(self).left_nav_stack@
            }),
            final(self).left_selected is None,
            final(self).right_nav_stack == old(self).right_nav_stack,
            final(self).right_selected == old(self).right_selected,
    {
        let _ = self.left_nav_stack.pop();
        self.left_selected = None;
    }

    /// The "上层" button of the right side: one level up, selection cleared.
    pub fn right_up(&mut self)
        ensures
            final(self).right_nav_stack@ == (if old(self).right_nav_stack@.len() > 0 {
                old(self).right_nav_stack@.drop_last()
            } else {
                old(self).right_nav_stack@
            }),
            final(self).right_selected is None,
            final(self).left_nav_stack == old(self).left_nav_stack,
            final(self).left_selected == old(self).left_selected,
    {
        let _ = self.right_nav_stack.pop();
        self.right_selected = None;
    }
}

/// `r` shows every child of `olds` as removed, in order.
pub open spec fn all_removed(olds: Seq<Entry>, r: Seq<DiffNode>) -> bool {
    &&& r.len() == olds.len()
    &&& forall|k: int| 0 <= k < olds.len() ==> diff_of_removed(olds, k, #[trigger] r[k])
}

/// The comparison shown for the snapshot directory at `right_nav_stack`
/// against the scanned directory at `left_nav_stack`: a level diff from the
/// snapshot to the scan, or everything removed when the scan has no such
/// directory, or nothing when the snapshot has none.
pub open spec fn comparison_diff(
    right_nav: Seq<usize>,
    left_nav: Seq<usize>,
    snapshot_root: DirNode,
    current_scan: Option<DirNode>,
    r: Seq<DiffNode>,
) -> bool {
    match resolve_path(snapshot_root, right_nav) {
        None => r.len() == 0,
        Some(right) => {
            let left = match current_scan {
                Some(root) => resolve_path(root, left_nav),
                None => None,
            };
            match left {
                Some(l) => is_level_diff(right.children@, l.children@, r),
                None => all_removed(right.children@, r),
            }
        },
    }
}

pub fn compute_diff(
    right_nav_stack: &Vec<usize>,
    left_nav_stack: &Vec<usize>,
    snapshot_root: &DirNode,
    current_scan: Option<&DirNode>,
) -> (r: Vec<DiffNode>)
    ensures
        comparison_diff(
            right_nav_stack@,
            left_nav_stack@,
            *snapshot_root,
            match current_scan {
                Some(d) => Some(*d),
                None => None,
            },
            r@,
        ),
{
    match resolve_by_nav_stack(snapshot_root, right_nav_stack) {
        None => Vec::new(),
        Some(right_dir) => {
            let left_dir = match current_scan {
                Some(root) => resolve_by_nav_stack(root, left_nav_stack),
                None => None,
            };
            match left_dir {
                Some(left_d) => diff_level(right_dir, left_d),
                None => {
                    let n = right_dir.children.len();
                    let mut r: Vec<DiffNode> = Vec::new();
                    let mut idx: usize = 0;
                    while idx < n
                        invariant
                            n == right_dir.children@.len(),
                            idx <= n,
                            r@.len() == idx,
                            forall|k: int|
                                0 <= k < idx ==> diff_of_removed(
                                    right_dir.children@,
                                    k,
                                    #[trigger] r@[k],
                                ),
                        decreases n - idx,
                    {
                        let entry = &right_dir.children[idx];
                        r.push(
                            DiffNode {
                                entry: entry.clone(),
                                change: ChangeType::Removed,
                                old_size: Some(entry.size()),
                                new_size: 0,
                                child_index: Some(idx),
                            },
                        );
                        idx = idx + 1;
                    }
                    r
                },
            }
        },
    }
}

} // verus!
