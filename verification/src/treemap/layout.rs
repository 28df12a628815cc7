use vstd::prelude::*;

use crate::scanner::types::{entry_name_of, entry_size, size_w, sizes_sum, DirNode, Entry};
use crate::sort::{index_seq, is_stable_desc_order, stable_desc_order};
use crate::sums::{lemma_map_values_multiset, lemma_sum_of_multiset, lemma_sum_of_push, sum_of};
use crate::treemap::color::{categorize_entry, entry_category, FileCategory};

verus! {

/// One block of the treemap before it is given a place on the canvas.
#[derive(Debug)]
pub struct LayoutItem {
    /// Position of the entry among the directory's children.
    pub entry_index: usize,
    pub size: u64,
    pub category: FileCategory,
    pub label: String,
    pub is_dir: bool,
}

/// Indices of the children of `s[0..hi]` that take some space, in order.
pub open spec fn nonzero_indices(s: Seq<Entry>, hi: int) -> Seq<usize>
    decreases hi,
{
    if hi <= 0 {
        Seq::empty()
    } else if entry_size(s[hi - 1]) > 0 {
        nonzero_indices(s, hi - 1).push((hi - 1) as usize)
    } else {
        nonzero_indices(s, hi - 1)
    }
}

/// The colour category of a block: a directory's recorded dominant category,
/// any other entry's own category.
pub open spec fn block_category(e: Entry) -> FileCategory {
    match e {
        Entry::Dir(d) => d.dominant_cat,
        _ => entry_category(e),
    }
}

/// `item` is the block of child `idx` of `s`.
pub open spec fn item_of(s: Seq<Entry>, idx: usize, item: LayoutItem) -> bool {
    &&& item.entry_index == idx
    &&& item.size == entry_size(s[idx as int])
    &&& item.category == block_category(s[idx as int])
    &&& item.label@ == entry_name_of(s[idx as int])
    &&& item.is_dir == (s[idx as int] is Dir)
}

pub open spec fn sizes_at(s: Seq<Entry>, idxs: Seq<usize>) -> Seq<u64> {
    Seq::new(idxs.len(), |k: int| entry_size(s[idxs[k] as int]))
}

/// The blocks of a directory: none when its total is 0; otherwise one for
/// each child that takes space, largest first, equal sizes in child order.
pub open spec fn is_layout(dir: DirNode, r: Seq<LayoutItem>) -> bool {
    if dir.total_size == 0 {
        r.len() == 0
    } else {
        let s = dir.children@;
        let idxs = nonzero_indices(s, s.len() as int);
        exists|order: Seq<usize>|
            #[trigger] is_stable_desc_order(sizes_at(s, idxs), order) && r.len() == idxs.len()
                && forall|k: int| 0 <= k < r.len() ==> item_of(s, idxs[order[k] as int], #[trigger] r[k])
    }
}

proof fn lemma_nonzero_indices(s: Seq<Entry>, hi: int)
    requires
        0 <= hi <= s.len(),
    ensures
        nonzero_indices(s, hi).len() <= hi,
        forall|k: int|
            0 <= k < nonzero_indices(s, hi).len() ==> #[trigger] nonzero_indices(s, hi)[k] < hi,
    decreases hi,
{
    if hi > 0 {
        lemma_nonzero_indices(s, hi - 1);
    }
}

/// The blocks of a directory, before the squarified layout places them.
pub fn layout_items(dir: &DirNode) -> (r: Vec<LayoutItem>)
    ensures
        is_layout(*dir, r@),
{
    if dir.total_size == 0 {
        return Vec::new();
    }
    let children = &dir.children;
    let n = children.len();
    let mut idxs: Vec<usize> = Vec::new();
    let mut sizes: Vec<u64> = Vec::new();
    let mut i: usize = 0;
    while i < n
        invariant
            n == children@.len(),
            children == &dir.children,
            i <= n,
            idxs@ == nonzero_indices(children@, i as int),
            sizes@ == sizes_at(children@, idxs@),
        decreases n - i,
    {
        let sz = children[i].size();
        if sz > 0 {
            idxs.push(i);
            sizes.push(sz);
            proof {
                assert(sizes@ =~= sizes_at(children@, idxs@));
            }
        }
        i = i + 1;
    }
    proof {
        lemma_nonzero_indices(children@, n as int);
    }
    let order = stable_desc_order(&sizes);
    let m = order.len();
    let mut r: Vec<LayoutItem> = Vec::new();
    let mut k: usize = 0;
    while k < m
        invariant
            m == order@.len() == idxs@.len() == sizes@.len(),
            children == &dir.children,
            idxs@ == nonzero_indices(children@, n as int),
            n == children@.len(),
            forall|q: int| 0 <= q < idxs@.len() ==> #[trigger] idxs@[q] < n,
            is_stable_desc_order(sizes@, order@),
            k <= m,
            r@.len() == k,
            forall|q: int| 0 <= q < k ==> item_of(children@, idxs@[order@[q] as int], #[trigger] r@[q]),
        decreases m - k,
    {
        let idx = idxs[order[k]];
        let e = &children[idx];
        let category = match e {
            Entry::Dir(d) => d.dominant_cat,
            _ => categorize_entry(e),
        };
        let is_dir = match e {
            Entry::Dir(_) => true,
            _ => false,
        };
        r.push(LayoutItem { entry_index: idx, size: e.size(), category, label: e.name(), is_dir });
        k = k + 1;
    }
    r
}

pub open spec fn u64_w() -> spec_fn(u64) -> int {
    |x: u64| x as int
}

/// The sizes of the blocks, in order.
pub open spec fn item_sizes(r: Seq<LayoutItem>) -> Seq<u64> {
    Seq::new(r.len(), |k: int| r[k].size)
}

proof fn lemma_nonzero_sum(s: Seq<Entry>, hi: int)
    requires
        0 <= hi <= s.len(),
        s.len() <= usize::MAX,
    ensures
        sum_of(sizes_at(s, nonzero_indices(s, hi)), u64_w()) == sizes_sum(s.take(hi)),
    decreases hi,
{
    if hi > 0 {
        lemma_nonzero_sum(s, hi - 1);
        lemma_nonzero_indices(s, hi - 1);
        assert(s.take(hi).drop_last() =~= s.take(hi - 1));
        let prev = nonzero_indices(s, hi - 1);
        if entry_size(s[hi - 1]) > 0 {
            assert(((hi - 1) as usize) as int == hi - 1);
            assert(sizes_at(s, nonzero_indices(s, hi)) =~= sizes_at(s, prev).push(entry_size(s[hi - 1])));
            lemma_sum_of_push(sizes_at(s, prev), entry_size(s[hi - 1]), u64_w());
        }
    } else {
        assert(sizes_at(s, nonzero_indices(s, 0)) =~= Seq::<u64>::empty());
    }
}

/// Law: the blocks of a directory with a nonzero total take, together,
/// exactly the space of its children: only empty entries are left out.
pub proof fn law_layout_covers_children(dir: DirNode, r: Seq<LayoutItem>)
    requires
        is_layout(dir, r),
        dir.total_size > 0,
    ensures
        sum_of(item_sizes(r), u64_w()) == sizes_sum(dir.children@),
{
    let s = dir.children@;
    let idxs = nonzero_indices(s, s.len() as int);
    let sa = sizes_at(s, idxs);
    let order = choose|order: Seq<usize>|
        #[trigger] is_stable_desc_order(sizes_at(s, idxs), order) && r.len() == idxs.len()
            && forall|k: int| 0 <= k < r.len() ==> item_of(s, idxs[order[k] as int], #[trigger] r[k]);
    let g = |i: usize| sa[i as int];
    lemma_map_values_multiset(order, index_seq(sa.len()), g);
    assert(order.map_values(g) =~= item_sizes(r));
    assert(idxs.len() <= s.len()) by {
        lemma_nonzero_indices(s, s.len() as int);
    }
    assert(s.len() == dir.children.len());
    assert forall|i: int| 0 <= i < sa.len() implies #[trigger] index_seq(sa.len())[i] as int == i by {}
    assert(index_seq(sa.len()).map_values(g) =~= sa);
    lemma_sum_of_multiset(item_sizes(r), sa, u64_w());
    lemma_nonzero_sum(s, s.len() as int);
    assert(s.take(s.len() as int) =~= s);
}

} // verus!
