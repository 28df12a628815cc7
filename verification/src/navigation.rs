use vstd::prelude::*;

use crate::scanner::types::{DirNode, Entry};
use crate::treemap::dominance::leaves;
use crate::treemap::TreemapAction;
use crate::ui::info_panel::FileListAction;
use crate::ui::comparison::{resolve_by_nav_stack, resolve_path};

verus! {

/// Where the user is in a scanned tree: the child indices followed from the
/// root, the selected block, and whether the treemap must be laid out again.
#[derive(Debug, Clone)]
pub struct TreeNavigator {
    pub nav_stack: Vec<usize>,
    pub selected_index: Option<usize>,
    pub needs_rebuild: bool,
}

impl TreeNavigator {
    /// At the root, nothing selected, the treemap to be built.
    pub fn new() -> (r: TreeNavigator)
        ensures
            r.nav_stack@.len() == 0,
            r.selected_index is None,
            r.needs_rebuild,
    {
        TreeNavigator { nav_stack: Vec::new(), selected_index: None, needs_rebuild: true }
    }

    /// The directory being shown.
    pub fn current_dir<'a>(&self, root: &'a DirNode) -> (r: Option<&'a DirNode>)
        ensures
            match r {
                Some(d) => resolve_path(*root, self.nav_stack@) == Some(*d),
                None => resolve_path(*root, self.nav_stack@) is None,
            },
    {
        resolve_by_nav_stack(root, &self.nav_stack)
    }

    /// Enters the child `entry_index` of the current directory when it is a
    /// subdirectory; otherwise nothing changes.
    pub fn drill_down(&mut self, root: &DirNode, entry_index: Option<usize>)
        ensures
            drilled(*root, *old(self), *final(self), entry_index),
    {
        let enter = match self.current_dir(root) {
            Some(dir) => match entry_index {
                Some(i) => i < dir.children.len() && match &dir.children[i] {
                    Entry::Dir(_) => true,
                    _ => false,
                },
                None => false,
            },
            None => false,
        };
        if enter {
            match entry_index {
                Some(i) => {
                    self.nav_stack.push(i);
                    self.selected_index = None;
                    self.needs_rebuild = true;
                },
                None => {},
            }
        }
    }

    /// Goes back up to the given depth (0 is the root); a depth beyond the
    /// current one keeps the path. Either way the selection is cleared and the
    /// treemap rebuilt.
    pub fn navigate_to_depth(&mut self, depth: usize)
        ensures
            final(self).nav_stack@ == if depth < old(self).nav_stack@.len() {
                old(self).nav_stack@.take(depth as int)
            } else {
                old(self).nav_stack@
            },
            final(self).selected_index is None,
            final(self).needs_rebuild,
    {
        self.nav_stack.truncate(depth);
        self.selected_index = None;
        self.needs_rebuild = true;
    }
}

impl TreeNavigator {
    /// Applies an action of the file list: selecting a block, or entering the
    /// directory of block `row` (whose child index is `entry_index_of_row`).
    /// Returns whether the list did anything.
    pub fn apply_list_action(
        &mut self,
        root: &DirNode,
        action: FileListAction,
        entry_index_of_row: Option<usize>,
    ) -> (handled: bool)
        ensures
            handled == !(action is Nothing),
            match action {
                FileListAction::Select(i) => *final(self) == (TreeNavigator {
                    selected_index: Some(i),
                    ..*old(self)
                }),
                FileListAction::Drill(_) => drilled(*root, *old(self), *final(self), entry_index_of_row),
                FileListAction::Nothing => *final(self) == *old(self),
            },
    {
        match action {
            FileListAction::Select(i) => {
                self.selected_index = Some(i);
                true
            },
            FileListAction::Drill(_) => {
                self.drill_down(root, entry_index_of_row);
                true
            },
            FileListAction::Nothing => false,
        }
    }

    /// Applies an action of the treemap: a double click enters the directory
    /// of the block (whose child index is `entry_index_of_block`); a click
    /// selects the block; a click on no block clears the selection unless the
    /// file list already acted in the same frame.
    pub fn apply_treemap_action(
        &mut self,
        root: &DirNode,
        action: TreemapAction,
        entry_index_of_block: Option<usize>,
        list_handled: bool,
    )
        ensures
            match action {
                TreemapAction::DoubleClick(_) => drilled(*root, *old(self), *final(self), entry_index_of_block),
                TreemapAction::Click(i) => if i == usize::MAX {
                    if list_handled {
                        *final(self) == *old(self)
                    } else {
                        *final(self) == (TreeNavigator { selected_index: None, ..*old(self) })
                    }
                } else {
                    *final(self) == (TreeNavigator { selected_index: Some(i), ..*old(self) })
                },
            },
    {
        match action {
            TreemapAction::DoubleClick(_) => {
                self.drill_down(root, entry_index_of_block);
            },
            TreemapAction::Click(i) => {
                if i == usize::MAX {
                    if !list_handled {
                        self.selected_index = None;
                    }
                } else {
                    self.selected_index = Some(i);
                }
            },
        }
    }
}

/// `after` is `before` after `drill_down(root, entry_index)`.
pub open spec fn drilled(root: DirNode, before: TreeNavigator, after: TreeNavigator, entry_index: Option<usize>) -> bool {
    match (resolve_path(root, before.nav_stack@), entry_index) {
        (Some(cur), Some(i)) if i < cur.children@.len() && cur.children@[i as int] is Dir => {
            &&& after.nav_stack@ == before.nav_stack@.push(i)
            &&& after.selected_index is None
            &&& after.needs_rebuild
        },
        _ => after == before,
    }
}

/// Law: entering a subdirectory shows that subdirectory.
pub proof fn law_drill_down_shows_child(root: DirNode, before: TreeNavigator, after: TreeNavigator, i: usize)
    requires
        resolve_path(root, before.nav_stack@) matches Some(cur) && i < cur.children@.len()
            && cur.children@[i as int] is Dir,
        after.nav_stack@ == before.nav_stack@.push(i),
    ensures
        resolve_path(root, before.nav_stack@) matches Some(cur) && resolve_path(root, after.nav_stack@)
            == Some(cur.children@[i as int]->Dir_0),
{
    assert(after.nav_stack@.drop_last() =~= before.nav_stack@);
}

/// Law: going back to the depth one had before entering a subdirectory
/// returns to the directory one left.
pub proof fn law_back_after_drill_down(before: Seq<usize>, i: usize, depth: usize)
    requires
        depth == before.len(),
    ensures
        before.push(i).take(depth as int) == before,
{
    assert(before.push(i).take(depth as int) =~= before);
}

/// Law: depth 0 is the root.
pub proof fn law_depth_zero_is_root(root: DirNode, nav: Seq<usize>)
    ensures
        resolve_path(root, nav.take(0)) == Some(root),
{
    assert(nav.take(0) =~= Seq::<usize>::empty());
}

/// Number of unreadable directories recorded below `s`.
pub open spec fn denied_count(s: Seq<Entry>) -> int
    decreases s,
{
    if s.len() == 0 {
        0
    } else {
        denied_count(s.drop_last()) + match s.last() {
            Entry::AccessDenied { .. } => 1int,
            Entry::Dir(d) => denied_count(d.children@),
            _ => 0int,
        }
    }
}

/// Whether an entry records an unreadable directory.
pub open spec fn is_denied_entry() -> spec_fn(Entry) -> bool {
    |e: Entry| e is AccessDenied
}

/// Law: the unreadable-directory count of a scan is the number of entries
/// below it, at any depth, that record an unreadable directory; files,
/// links, "Others" blocks and readable directories never add to it.
pub proof fn law_denied_count_counts_unreadable(s: Seq<Entry>)
    ensures
        denied_count(s) == leaves(s).filter(is_denied_entry()).len(),
    decreases s,
{
    reveal(Seq::filter);
    if s.len() > 0 {
        let init = s.drop_last();
        law_denied_count_counts_unreadable(init);
        let tail = match s.last() {
            Entry::Dir(d) => leaves(d.children@),
            e => seq![e],
        };
        assert(leaves(s) == leaves(init) + tail);
        Seq::filter_distributes_over_add(leaves(init), tail, is_denied_entry());
        match s.last() {
            Entry::Dir(d) => {
                law_denied_count_counts_unreadable(d.children@);
            },
            e => {
                assert(tail.drop_last() =~= Seq::<Entry>::empty());
                assert(tail.last() == e);
                assert(Seq::<Entry>::empty().filter(is_denied_entry()) =~= Seq::<Entry>::empty());
            },
        }
    }
}

proof fn lemma_denied_count_prefix(s: Seq<Entry>, j: int)
    requires
        0 <= j <= s.len(),
    ensures
        0 <= denied_count(s.take(j)) <= denied_count(s),
    decreases s.len() - j,
{
    if j < s.len() {
        lemma_denied_count_prefix(s, j + 1);
        assert(s.take(j + 1).drop_last() =~= s.take(j));
        lemma_denied_count_nonneg(s.take(j));
        match s[j] {
            Entry::Dir(d) => lemma_denied_count_nonneg(d.children@),
            _ => {},
        }
    } else {
        assert(s.take(j) =~= s);
        lemma_denied_count_nonneg(s);
    }
}

proof fn lemma_denied_count_nonneg(s: Seq<Entry>)
    ensures
        denied_count(s) >= 0,
    decreases s,
{
    if s.len() > 0 {
        lemma_denied_count_nonneg(s.drop_last());
        if let Entry::Dir(d) = s.last() {
            lemma_denied_count_nonneg(d.children@);
        }
    }
}

/// Counts the unreadable directories recorded anywhere below `node`.
pub fn count_access_denied(node: &DirNode) -> (r: u64)
    requires
        denied_count(node.children@) <= u64::MAX,
    ensures
        r == denied_count(node.children@),
        r == leaves(node.children@).filter(is_denied_entry()).len(),
    decreases node,
{
    let n = node.children.len();
    let mut count: u64 = 0;
    let mut i: usize = 0;
    proof {
        assert(node.children@.take(0) =~= Seq::<Entry>::empty());
    }
    while i < n
        invariant
            n == node.children@.len(),
            i <= n,
            count == denied_count(node.children@.take(i as int)),
            denied_count(node.children@) <= u64::MAX,
        decreases n - i,
    {
        proof {
            assert(node.children@.take(i + 1).drop_last() =~= node.children@.take(i as int));
            lemma_denied_count_prefix(node.children@, i + 1);
        }
        match &node.children[i] {
            Entry::AccessDenied { .. } => {
                count = count + 1;
            },
            Entry::Dir(d) => {
                proof {
                    assert(decreases_to!(*node => node.children));
                    assert(decreases_to!(node.children => node.children@));
                }
                let sub = count_access_denied(d);
                count = count + sub;
            },
            _ => {},
        }
        i = i + 1;
    }
    proof {
        assert(node.children@.take(n as int) =~= node.children@);
        law_denied_count_counts_unreadable(node.children@);
    }
    count
}

} // verus!
