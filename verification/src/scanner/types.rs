use vstd::prelude::*;

use crate::path::{display_name, path_display_name};
use crate::sort::{index_seq, is_stable_desc_order, stable_desc_order};
use crate::sums::{lemma_sum_of_add, lemma_sum_of_multiset, lemma_sum_of_push, lemma_map_values_multiset, sum_of};
use crate::treemap::color::{
    category_total, category_totals_fit, dominant_of, is_dominant, lemma_category_total_nonneg,
    FileCategory,
};

verus! {

/// A regular file found during a scan.
#[derive(Debug, PartialEq, Eq)]
pub struct FileEntry {
    pub name: String,
    pub size: u64,
}

/// A scanned directory: its own files and subdirectories, with the totals
/// gathered for the whole subtree.
#[derive(Debug, PartialEq, Eq)]
pub struct DirNode {
    pub path: String,
    pub name: String,
    pub total_size: u64,
    pub file_count: u64,
    pub children: Vec<Entry>,
    pub access_denied: bool,
    pub dominant_cat: FileCategory,
}

/// One child of a directory.
#[derive(Debug, PartialEq, Eq)]
pub enum Entry {
    File(FileEntry),
    Dir(DirNode),
    Others(OthersEntry),
    Symlink(String),
    AccessDenied { path: String },
}

/// What a scan reports while it runs and when it ends.
#[derive(Debug)]
pub enum ScanEvent {
    DirEntry { path: String, size: u64, file_count: u64 },
    Progress { files_scanned: u64, bytes_scanned: u64, current_path: String },
    AccessDenied { path: String },
    Error { path: String, error: crate::scanner::error::ScanError },
    Complete {
        root: DirNode,
        duration: std::time::Duration,
        total_files: u64,
        access_denied_count: u64,
    },
}

/// Small entries folded together into a single block.
#[derive(Debug, PartialEq, Eq)]
pub struct OthersEntry {
    pub name: String,
    pub size: u64,
    pub entry_count: u64,
    pub entries: Vec<Entry>,
}

/// The size an entry occupies in its parent: a file's size, a directory's
/// total, an aggregate's size; links and unreadable directories count 0.
pub open spec fn entry_size(e: Entry) -> u64 {
    match e {
        Entry::File(f) => f.size,
        Entry::Dir(d) => d.total_size,
        Entry::Others(o) => o.size,
        _ => 0,
    }
}

/// The name an entry is matched and shown by: the name of a file,
/// directory or aggregate, the file name of a link's or an unreadable
/// directory's path.
pub open spec fn entry_name_of(e: Entry) -> Seq<char> {
    match e {
        Entry::File(f) => f.name@,
        Entry::Dir(d) => d.name@,
        Entry::Others(o) => o.name@,
        Entry::Symlink(p) => display_name(p@),
        Entry::AccessDenied { path } => display_name(path@),
    }
}

impl Entry {
    pub fn name(&self) -> (r: String)
        ensures
            r@ == entry_name_of(*self),
    {
        match self {
            Entry::File(f) => f.name.clone(),
            Entry::Dir(d) => d.name.clone(),
            Entry::Others(o) => o.name.clone(),
            Entry::Symlink(p) => path_display_name(p.as_str()),
            Entry::AccessDenied { path } => path_display_name(path.as_str()),
        }
    }

    pub fn size(&self) -> (r: u64)
        ensures
            r == entry_size(*self),
    {
        match self {
            Entry::File(f) => f.size,
            Entry::Dir(d) => d.total_size,
            Entry::Others(o) => o.size,
            _ => 0,
        }
    }
}

pub open spec fn size_w() -> spec_fn(Entry) -> int {
    |e: Entry| entry_size(e) as int
}

/// Sum of the sizes of a sequence of entries.
pub open spec fn sizes_sum(s: Seq<Entry>) -> int {
    sum_of(s, size_w())
}

/// What an entry weighs in the sums of its directory: its size, or the
/// bound of what lies below it when that is larger.
pub open spec fn child_weight(e: Entry) -> int {
    if entry_weight(e) > entry_size(e) {
        entry_weight(e)
    } else {
        entry_size(e) as int
    }
}

pub open spec fn weight_w() -> spec_fn(Entry) -> int {
    |e: Entry| child_weight(e)
}

/// Upper bound of every sum of sizes that the aggregation and the category
/// totals can form below an entry: each file counts once, and each
/// directory below counts the larger of its recorded total and the bound of
/// its own children.
pub open spec fn entry_weight(e: Entry) -> int
    decreases e,
{
    match e {
        Entry::File(f) => f.size as int,
        Entry::Others(o) => o.size as int,
        Entry::Dir(d) => children_weight(d.children@),
        _ => 0,
    }
}

pub open spec fn children_weight(s: Seq<Entry>) -> int
    decreases s,
{
    if s.len() == 0 {
        0
    } else {
        children_weight(s.drop_last()) + if entry_weight(s.last()) > entry_size(s.last()) {
            entry_weight(s.last())
        } else {
            entry_size(s.last()) as int
        }
    }
}

pub proof fn lemma_entry_weight_facts(e: Entry)
    ensures
        child_weight(e) >= entry_size(e),
        entry_weight(e) >= 0,
        child_weight(e) >= entry_weight(e),
    decreases e,
{
    if let Entry::Dir(d) = e {
        lemma_children_weight_nonneg(d.children@);
    }
}

pub proof fn lemma_children_weight_nonneg(s: Seq<Entry>)
    ensures
        children_weight(s) >= 0,
    decreases s,
{
    if s.len() > 0 {
        lemma_children_weight_nonneg(s.drop_last());
        lemma_entry_weight_facts(s.last());
    }
}

pub proof fn lemma_children_weight_is_sum(s: Seq<Entry>)
    ensures
        children_weight(s) == sum_of(s, weight_w()),
    decreases s.len(),
{
    if s.len() > 0 {
        lemma_children_weight_is_sum(s.drop_last());
    }
}

pub proof fn lemma_weights_nonneg()
    ensures
        forall|e: Entry| #[trigger] weight_w()(e) >= 0,
        forall|e: Entry| #[trigger] size_w()(e) >= 0,
        forall|e: Entry| weight_w()(e) >= #[trigger] size_w()(e),
{
    assert forall|e: Entry| #[trigger] weight_w()(e) >= 0 && weight_w()(e) >= size_w()(e) by {
        lemma_entry_weight_facts(e);
    }
}

/// A sum of sizes stays within the sum of weights of the same entries.
pub proof fn lemma_sizes_le_weights(s: Seq<Entry>)
    ensures
        sizes_sum(s) <= children_weight(s),
    decreases s.len(),
{
    lemma_children_weight_is_sum(s);
    lemma_sizes_le_weights_sum(s);
}

proof fn lemma_sizes_le_weights_sum(s: Seq<Entry>)
    ensures
        sum_of(s, size_w()) <= sum_of(s, weight_w()),
    decreases s.len(),
{
    if s.len() > 0 {
        lemma_sizes_le_weights_sum(s.drop_last());
        lemma_entry_weight_facts(s.last());
    }
}

/// The leaves below a sequence of entries take no more than its weight.
pub proof fn lemma_category_total_le_weight(s: Seq<Entry>, c: FileCategory)
    ensures
        category_total(s, c) <= children_weight(s),
    decreases s,
{
    if s.len() > 0 {
        lemma_category_total_le_weight(s.drop_last(), c);
        lemma_entry_weight_facts(s.last());
        if let Entry::Dir(d) = s.last() {
            lemma_category_total_le_weight(d.children@, c);
        }
    }
}

// ---------------------------------------------------------------------
// Aggregation of small entries into an "Others" block.

/// Thresholds of the aggregation: a directory with more than `max_entries`
/// children keeps its `top_n` largest, then the rest of those at least
/// `min_relative_size_ppm` millionths of its total size; the smaller ones are
/// folded into one "Others" entry.
#[derive(Debug, Clone, Copy, PartialEq, Eq)]
pub struct AggThresholds {
    pub max_entries: usize,
    pub top_n: usize,
    pub min_relative_size_ppm: u64,
}

impl Default for AggThresholds {
    fn default() -> (t: AggThresholds)
        ensures
            t.max_entries == 1000,
            t.top_n == 500,
            t.min_relative_size_ppm == 1000,
    {
        AggThresholds { max_entries: 1000, top_n: 500, min_relative_size_ppm: 1000 }
    }
}

/// Entries below this size are folded into "Others" in a directory of the
/// given total size.
pub open spec fn min_keep_size(total: u64, th: AggThresholds) -> int {
    (total as int * th.min_relative_size_ppm as int) / 1_000_000
}

pub open spec fn is_small(e: Entry, min: int) -> bool {
    (entry_size(e) as int) < min
}

/// The entries of `s` that are not small, in order.
pub open spec fn large_part(s: Seq<Entry>, min: int) -> Seq<Entry>
    decreases s.len(),
{
    if s.len() == 0 {
        s
    } else if is_small(s.last(), min) {
        large_part(s.drop_last(), min)
    } else {
        large_part(s.drop_last(), min).push(s.last())
    }
}

/// The small entries of `s`, in order.
pub open spec fn small_part(s: Seq<Entry>, min: int) -> Seq<Entry>
    decreases s.len(),
{
    if s.len() == 0 {
        s
    } else if is_small(s.last(), min) {
        small_part(s.drop_last(), min).push(s.last())
    } else {
        small_part(s.drop_last(), min)
    }
}

pub open spec fn sizes_of(s: Seq<Entry>) -> Seq<u64> {
    Seq::new(s.len(), |i: int| entry_size(s[i]))
}

/// `s` rearranged as `order` lists its indices.
pub open spec fn reorder(s: Seq<Entry>, order: Seq<usize>) -> Seq<Entry> {
    Seq::new(order.len(), |k: int| s[order[k] as int])
}

/// `out` is what is left of the size-sorted children `sorted` when the first
/// `top_n` are kept, the rest keep their large entries and lose their small
/// ones into a final "Others" entry (added only when there are small ones).
pub open spec fn aggregated_from_sorted(sorted: Seq<Entry>, top_n: int, min: int, out: Seq<Entry>) -> bool {
    if sorted.len() <= top_n {
        out == sorted
    } else {
        let rest = sorted.skip(top_n);
        let head = sorted.take(top_n) + large_part(rest, min);
        let small = small_part(rest, min);
        if small.len() == 0 {
            out == head
        } else {
            &&& out.len() == head.len() + 1
            &&& out.take(head.len() as int) == head
            &&& out.last() matches Entry::Others(o)
            &&& o.name@ == "Others"@
            &&& o.size == sizes_sum(small)
            &&& o.entry_count == small.len()
            &&& o.entries@ == small
        }
    }
}

/// The children `out` a directory of total size `total` is left with when its
/// children `mid` go through the aggregation: unchanged up to `max_entries`
/// children, otherwise sorted by decreasing size (a stable sort) and then cut
/// as `aggregated_from_sorted` says.
pub open spec fn aggregated(mid: Seq<Entry>, total: u64, th: AggThresholds, out: Seq<Entry>) -> bool {
    if mid.len() <= th.max_entries {
        out == mid
    } else {
        exists|order: Seq<usize>|
            #[trigger] is_stable_desc_order(sizes_of(mid), order) && aggregated_from_sorted(
                reorder(mid, order),
                th.top_n as int,
                min_keep_size(total, th),
                out,
            )
    }
}

/// `new` is `old` after `finish`: a subdirectory is finished itself, any
/// other entry is kept as it is.
pub open spec fn finish_entry_rel(old: Entry, new: Entry, th: AggThresholds) -> bool
    decreases old, 0int,
{
    match old {
        Entry::Dir(d) => match new {
            Entry::Dir(d2) => finish_rel(d, d2, th),
            _ => false,
        },
        _ => new == old,
    }
}

/// Every child of `olds` is finished into the child of `mids` at the same
/// place.
pub open spec fn children_finished(olds: Seq<Entry>, mids: Seq<Entry>, th: AggThresholds) -> bool
    decreases olds, 1int,
{
    &&& olds.len() == mids.len()
    &&& forall|i: int| 0 <= i < olds.len() ==> finish_entry_rel(#[trigger] olds[i], mids[i], th)
}

/// `new` is `old` after `finish`: the same totals and names; its children are
/// first finished one by one, the dominant category is taken over those
/// finished children, and then they are aggregated.
pub open spec fn finish_rel(old: DirNode, new: DirNode, th: AggThresholds) -> bool
    decreases old, 2int,
{
    &&& new.path == old.path
    &&& new.name == old.name
    &&& new.total_size == old.total_size
    &&& new.file_count == old.file_count
    &&& new.access_denied == old.access_denied
    &&& exists|mid: Seq<Entry>|
        children_finished(old.children@, mid, th) && #[trigger] is_dominant(mid, new.dominant_cat)
            && aggregated(mid, old.total_size, th, new.children@)
}

/// Splitting a sequence into its large and small entries loses nothing.
pub proof fn lemma_parts_sum(s: Seq<Entry>, min: int, w: spec_fn(Entry) -> int)
    ensures
        sum_of(large_part(s, min), w) + sum_of(small_part(s, min), w) == sum_of(s, w),
    decreases s.len(),
{
    if s.len() > 0 {
        lemma_parts_sum(s.drop_last(), min, w);
        lemma_sum_of_push(large_part(s.drop_last(), min), s.last(), w);
        lemma_sum_of_push(small_part(s.drop_last(), min), s.last(), w);
    }
}

pub proof fn lemma_parts_multiset(s: Seq<Entry>, min: int)
    ensures
        large_part(s, min).to_multiset().add(small_part(s, min).to_multiset()) == s.to_multiset(),
    decreases s.len(),
{
    broadcast use vstd::seq_lib::group_to_multiset_ensures;
    broadcast use vstd::multiset::group_multiset_axioms;

    if s.len() > 0 {
        lemma_parts_multiset(s.drop_last(), min);
        assert(s.drop_last().push(s.last()) =~= s);
        assert(large_part(s, min).to_multiset().add(small_part(s, min).to_multiset())
            =~= s.to_multiset());
    } else {
        assert(large_part(s, min).to_multiset().add(small_part(s, min).to_multiset())
            =~= s.to_multiset());
    }
}

/// The entries of a vector in reverse order.
fn reversed(v: Vec<Entry>) -> (r: Vec<Entry>)
    ensures
        r@ == v@.reverse(),
{
    let mut v = v;
    let ghost orig = v@;
    let mut r: Vec<Entry> = Vec::new();
    while v.len() > 0
        invariant
            v@ == orig.take(v@.len() as int),
            v@.len() <= orig.len(),
            r@ == orig.skip(v@.len() as int).reverse(),
        decreases v@.len(),
    {
        let ghost before = v@.len();
        match v.pop() {
            Some(e) => {
                r.push(e);
                proof {
                    assert(v@ =~= orig.take(v@.len() as int));
                    assert(r@ =~= orig.skip(v@.len() as int).reverse());
                }
            },
            None => {},
        }
    }
    proof {
        assert(orig.skip(0) =~= orig);
    }
    r
}

/// Splits `rest` into its large and small entries, in order, and sums the
/// sizes of the small ones.
fn split_by_size(rest: Vec<Entry>, min: u128) -> (r: (Vec<Entry>, Vec<Entry>, u64))
    requires
        sizes_sum(rest@) <= u64::MAX,
    ensures
        r.0@ == large_part(rest@, min as int),
        r.1@ == small_part(rest@, min as int),
        r.2 == sizes_sum(r.1@),
{
    let ghost orig = rest@;
    let mut pending = reversed(rest);
    let mut large: Vec<Entry> = Vec::new();
    let mut small: Vec<Entry> = Vec::new();
    let mut small_sum: u64 = 0;
    let n = pending.len();
    let mut k: usize = 0;
    proof {
        assert(orig.take(0) =~= Seq::<Entry>::empty());
        lemma_weights_nonneg();
    }
    while k < n
        invariant
            n == orig.len(),
            k <= n,
            pending@ == orig.skip(k as int).reverse(),
            large@ == large_part(orig.take(k as int), min as int),
            small@ == small_part(orig.take(k as int), min as int),
            small_sum == sizes_sum(small@),
            sizes_sum(orig) <= u64::MAX,
        decreases n - k,
    {
        let e = match pending.pop() {
            Some(e) => e,
            None => {
                proof {
                    assert(false);
                }
                return (large, small, small_sum);
            },
        };
        proof {
            assert(e == orig[k as int]);
            assert(orig.take(k + 1).drop_last() =~= orig.take(k as int));
            assert(pending@ =~= orig.skip(k + 1).reverse());
        }
        let sz = e.size();
        if (sz as u128) < min {
            proof {
                lemma_sum_of_push(small@, e, size_w());
                lemma_parts_sum(orig.take(k + 1), min as int, size_w());
                lemma_parts_sum(orig, min as int, size_w());
                crate::sums::lemma_sum_of_nonneg(large_part(orig.take(k + 1), min as int), size_w());
                lemma_prefix_sum_le(orig, k + 1);
            }
            small_sum = small_sum + sz;
            small.push(e);
        } else {
            large.push(e);
        }
        k = k + 1;
    }
    proof {
        assert(orig.take(n as int) =~= orig);
    }
    (large, small, small_sum)
}

/// A prefix of a sequence takes no more than the whole.
pub proof fn lemma_prefix_sum_le(s: Seq<Entry>, j: int)
    requires
        0 <= j <= s.len(),
    ensures
        sizes_sum(s.take(j)) <= sizes_sum(s),
{
    lemma_weights_nonneg();
    assert(s =~= s.take(j) + s.skip(j));
    lemma_sum_of_add(s.take(j), s.skip(j), size_w());
    crate::sums::lemma_sum_of_nonneg(s.skip(j), size_w());
}

/// The entries of `pool` in the order `order` lists their indices.
fn gather(pool: Vec<Entry>, order: &Vec<usize>) -> (out: Vec<Entry>)
    requires
        order@.len() == pool@.len(),
        forall|k: int| 0 <= k < order@.len() ==> #[trigger] order@[k] < pool@.len(),
        forall|k: int, l: int| 0 <= k < l < order@.len() ==> #[trigger] order@[k] != #[trigger] order@[l],
    ensures
        out@ == reorder(pool@, order@),
{
    let mut pool = pool;
    let ghost orig = pool@;
    let n = order.len();
    let mut out: Vec<Entry> = Vec::new();
    let mut k: usize = 0;
    while k < n
        invariant
            n == order@.len() == orig.len() == pool@.len(),
            k <= n,
            forall|q: int| 0 <= q < order@.len() ==> #[trigger] order@[q] < orig.len(),
            forall|p: int, q: int| 0 <= p < q < order@.len() ==> #[trigger] order@[p] != #[trigger] order@[q],
            out@ == reorder(orig, order@).take(k as int),
            forall|j: int|
                0 <= j < n && (forall|q: int| 0 <= q < k ==> #[trigger] order@[q] != j) ==> #[trigger] pool@[j]
                    == orig[j],
        decreases n - k,
    {
        let idx = order[k];
        proof {
            assert forall|q: int| 0 <= q < k implies #[trigger] order@[q] != idx by {
                assert(order@[q] != order@[k as int]);
            }
            assert(pool@[idx as int] == orig[idx as int]);
        }
        let mut slot = Entry::Symlink(String::new());
        pool.set_and_swap(idx, &mut slot);
        out.push(slot);
        proof {
            assert(out@ =~= reorder(orig, order@).take(k + 1));
            assert forall|j: int|
                0 <= j < n && (forall|q: int| 0 <= q < k + 1 ==> #[trigger] order@[q] != j) implies #[trigger] pool@[j]
                == orig[j] by {
                assert(order@[k as int] != j);
            }
        }
        k = k + 1;
    }
    proof {
        assert(reorder(orig, order@).take(n as int) =~= reorder(orig, order@));
    }
    out
}

/// A rearrangement by a permutation of the indices holds the same entries.
proof fn lemma_reorder_multiset(s: Seq<Entry>, order: Seq<usize>)
    requires
        order.to_multiset() == index_seq(s.len()).to_multiset(),
        order.len() == s.len(),
        s.len() <= usize::MAX,
    ensures
        reorder(s, order).to_multiset() == s.to_multiset(),
{
    let g = |i: usize| s[i as int];
    assert forall|i: int| 0 <= i < s.len() implies #[trigger] index_seq(s.len())[i] as int == i by {}
    lemma_map_values_multiset(order, index_seq(s.len()), g);
    assert(order.map_values(g) =~= reorder(s, order));
    assert(index_seq(s.len()).map_values(g) =~= s);
}

/// Aggregates the children `mid` of a directory of total size `total`.
fn aggregate_children(mid: Vec<Entry>, total: u64, th: &AggThresholds) -> (out: Vec<Entry>)
    requires
        children_weight(mid@) <= u64::MAX,
    ensures
        aggregated(mid@, total, *th, out@),
        children_weight(out@) <= children_weight(mid@),
{
    let n = mid.len();
    if n <= th.max_entries {
        return mid;
    }
    let ghost m = mid@;
    let mut sizes: Vec<u64> = Vec::new();
    let mut i: usize = 0;
    while i < n
        invariant
            n == m.len(),
            m == mid@,
            i <= n,
            sizes@ =~= sizes_of(m).take(i as int),
        decreases n - i,
    {
        sizes.push(mid[i].size());
        i = i + 1;
    }
    proof {
        assert(sizes@ =~= sizes_of(m));
    }
    let order = stable_desc_order(&sizes);
    let mut sorted = gather(mid, &order);
    let ghost sorted0 = sorted@;
    proof {
        lemma_reorder_multiset(m, order@);
        lemma_weights_nonneg();
        lemma_children_weight_is_sum(m);
        lemma_sum_of_multiset(sorted0, m, weight_w());
        lemma_sum_of_multiset(sorted0, m, size_w());
        lemma_sizes_le_weights(m);
        assert(aggregated_from_sorted(reorder(m, order@), th.top_n as int, min_keep_size(total, *th), sorted0) ==> aggregated(m, total, *th, sorted0));
    }
    if n <= th.top_n {
        proof {
            lemma_children_weight_is_sum(sorted0);
        }
        return sorted;
    }
    let rest = sorted.split_off(th.top_n);
    let ghost head0 = sorted@;
    proof {
        assert(sorted0 =~= head0 + rest@);
        assert(head0 =~= sorted0.take(th.top_n as int));
        assert(rest@ =~= sorted0.skip(th.top_n as int));
        lemma_sum_of_add(head0, rest@, size_w());
        lemma_sum_of_add(head0, rest@, weight_w());
        crate::sums::lemma_sum_of_nonneg(head0, size_w());
    }
    proof {
        let a = total as int;
        let b = th.min_relative_size_ppm as int;
        assert(a * b <= u64::MAX as int * u64::MAX as int) by (nonlinear_arith)
            requires
                0 <= a <= u64::MAX,
                0 <= b <= u64::MAX,
        ;
    }
    let min: u128 = (total as u128) * (th.min_relative_size_ppm as u128) / 1_000_000u128;
    let (mut large, small, small_size) = split_by_size(rest, min);
    let ghost large0 = large@;
    let ghost small0 = small@;
    sorted.append(&mut large);
    let ghost head = sorted@;
    proof {
        assert(head =~= head0 + large0);
        lemma_parts_sum(rest@, min as int, weight_w());
        lemma_parts_sum(rest@, min as int, size_w());
        lemma_sum_of_add(head0, large0, weight_w());
        lemma_sizes_le_weights_sum(small0);
    }
    if small.len() == 0 {
        proof {
            lemma_children_weight_is_sum(head);
            assert(aggregated_from_sorted(sorted0, th.top_n as int, min as int, head));
        }
        return sorted;
    }
    let count = small.len() as u64;
    let others = OthersEntry {
        name: String::from_str("Others"),
        size: small_size,
        entry_count: count,
        entries: small,
    };
    sorted.push(Entry::Others(others));
    proof {
        let out = sorted@;
        assert(out.take(head.len() as int) =~= head);
        lemma_sum_of_push(head, out.last(), weight_w());
        assert(out =~= head.push(out.last()));
        lemma_children_weight_is_sum(out);
        assert(aggregated_from_sorted(sorted0, th.top_n as int, min as int, out));
    }
    sorted
}

impl DirNode {
    /// Finishes a scanned tree: every subdirectory is finished first, then
    /// the directory's dominant category is recorded, and a directory with
    /// more children than `max_entries` keeps its largest ones and folds the
    /// small rest into an "Others" entry.
    pub fn finish(&mut self, thresholds: &AggThresholds)
        requires
            entry_weight(Entry::Dir(*old(self))) <= u64::MAX,
        ensures
            finish_rel(*old(self), *final(self), *thresholds),
            entry_weight(Entry::Dir(*final(self))) <= entry_weight(Entry::Dir(*old(self))),
        decreases *old(self),
    {
        let ghost old_self = *self;
        let mut olds: Vec<Entry> = Vec::new();
        std::mem::swap(&mut self.children, &mut olds);
        let ghost orig = olds@;
        let n = olds.len();
        let mut pending = reversed(olds);
        let mut mid: Vec<Entry> = Vec::new();
        let mut k: usize = 0;
        proof {
            lemma_children_weight_is_sum(orig);
            lemma_weights_nonneg();
            assert(orig.take(0) =~= Seq::<Entry>::empty());
        }
        while k < n
            invariant
                n == orig.len(),
                orig == old_self.children@,
                old_self == *old(self),
                k <= n,
                pending@ == orig.skip(k as int).reverse(),
                children_finished(orig.take(k as int), mid@, *thresholds),
                sum_of(mid@, weight_w()) <= sum_of(orig.take(k as int), weight_w()),
                children_weight(orig) <= u64::MAX,
                sum_of(orig, weight_w()) == children_weight(orig),
                forall|e: Entry| #[trigger] weight_w()(e) >= 0,
            decreases n - k,
        {
            let e = match pending.pop() {
                Some(e) => e,
                None => {
                    proof {
                        assert(false);
                    }
                    return;
                },
            };
            proof {
                assert(e == orig[k as int]);
                assert(orig.take(k + 1).drop_last() =~= orig.take(k as int));
                assert(pending@ =~= orig.skip(k + 1).reverse());
                crate::sums::lemma_sum_of_elem_le(orig, k as int, weight_w());
            }
            let ghost e_old = e;
            let e2 = match e {
                Entry::Dir(mut d) => {
                    proof {
                        assert(old_self.children@[k as int] == Entry::Dir(d));
                        assert(decreases_to!(old_self => old_self.children));
                        assert(decreases_to!(old_self.children => old_self.children@));
                        assert(decreases_to!(old_self.children@ => old_self.children@[k as int]));
                        assert(decreases_to!(Entry::Dir(d) => d));
                        assert(decreases_to!(old_self => d));
                    }
                    d.finish(thresholds);
                    Entry::Dir(d)
                },
                other => other,
            };
            proof {
                assert(finish_entry_rel(e_old, e2, *thresholds));
                assert(children_finished(orig.take(k as int), mid@, *thresholds));
                lemma_sum_of_push(mid@, e2, weight_w());
                lemma_sum_of_push(orig.take(k as int), e, weight_w());
                assert(orig.take(k + 1) =~= orig.take(k as int).push(e));
            }
            let ghost mid_before = mid@;
            mid.push(e2);
            proof {
                assert forall|i: int| 0 <= i < k + 1 implies #[trigger] finish_entry_rel(
                    orig.take(k + 1)[i],
                    mid@[i],
                    *thresholds,
                ) by {
                    if i < k {
                        assert(finish_entry_rel(orig.take(k as int)[i], mid_before[i], *thresholds));
                    }
                }
            }
            k = k + 1;
        }
        proof {
            assert(orig.take(n as int) =~= orig);
            lemma_children_weight_is_sum(mid@);
            assert forall|c: FileCategory| category_total(mid@, c) <= u64::MAX by {
                lemma_category_total_le_weight(mid@, c);
            }
        }
        let dominant = dominant_of(&mid);
        let ghost mid0 = mid@;
        let out = aggregate_children(mid, self.total_size, thresholds);
        self.children = out;
        self.dominant_cat = dominant;
        proof {
            assert(children_finished(old_self.children@, mid0, *thresholds));
            assert(is_dominant(mid0, self.dominant_cat));
            assert(aggregated(mid0, old_self.total_size, *thresholds, self.children@));
            lemma_children_weight_is_sum(mid0);
            assert(children_weight(self.children@) <= children_weight(old_self.children@));
            assert(self.path == old_self.path);
            assert(self.name == old_self.name);
            assert(self.total_size == old_self.total_size);
            assert(self.access_denied == old_self.access_denied);
            assert(self.file_count == old_self.file_count);
            assert(finish_rel(old_self, *self, *thresholds));
        }
    }
}

/// Finishing a child keeps its size.
proof fn lemma_finished_sizes(olds: Seq<Entry>, mids: Seq<Entry>, th: AggThresholds)
    requires
        children_finished(olds, mids, th),
    ensures
        sizes_sum(mids) == sizes_sum(olds),
    decreases olds.len(),
{
    if olds.len() > 0 {
        let n = olds.len() - 1;
        assert(finish_entry_rel(olds[n], mids[n], th));
        assert forall|i: int| 0 <= i < n implies finish_entry_rel(
            #[trigger] olds.drop_last()[i],
            mids.drop_last()[i],
            th,
        ) by {
            assert(finish_entry_rel(olds[i], mids[i], th));
        }
        lemma_finished_sizes(olds.drop_last(), mids.drop_last(), th);
        match olds[n] {
            Entry::Dir(d) => {
                assert(mids[n] is Dir);
            },
            _ => {},
        }
    }
}

/// Aggregation keeps the sum of the children's sizes: an "Others" entry is
/// as large as the entries it holds.
proof fn lemma_aggregated_sizes(mid: Seq<Entry>, total: u64, th: AggThresholds, out: Seq<Entry>)
    requires
        aggregated(mid, total, th, out),
        mid.len() <= usize::MAX,
    ensures
        sizes_sum(out) == sizes_sum(mid),
{
    if mid.len() > th.max_entries {
        let order = choose|order: Seq<usize>|
            #[trigger] is_stable_desc_order(sizes_of(mid), order) && aggregated_from_sorted(
                reorder(mid, order),
                th.top_n as int,
                min_keep_size(total, th),
                out,
            );
        let sorted = reorder(mid, order);
        lemma_reorder_multiset(mid, order);
        lemma_sum_of_multiset(sorted, mid, size_w());
        if sorted.len() > th.top_n {
            let top = th.top_n as int;
            let min = min_keep_size(total, th);
            let rest = sorted.skip(top);
            let head = sorted.take(top) + large_part(rest, min);
            let small = small_part(rest, min);
            assert(sorted =~= sorted.take(top) + rest);
            lemma_sum_of_add(sorted.take(top), rest, size_w());
            lemma_sum_of_add(sorted.take(top), large_part(rest, min), size_w());
            lemma_parts_sum(rest, min, size_w());
            if small.len() > 0 {
                assert(out =~= head.push(out.last()));
                lemma_sum_of_push(head, out.last(), size_w());
            }
        }
    }
}

/// Law: finishing a directory keeps the sum of its children's sizes, so the
/// space shown for a directory never changes through the aggregation.
pub proof fn law_finish_keeps_children_size(old: DirNode, new: DirNode, th: AggThresholds)
    requires
        finish_rel(old, new, th),
    ensures
        sizes_sum(new.children@) == sizes_sum(old.children@),
        new.total_size == old.total_size,
{
    let mid = choose|mid: Seq<Entry>|
        children_finished(old.children@, mid, th) && #[trigger] is_dominant(mid, new.dominant_cat)
            && aggregated(mid, old.total_size, th, new.children@);
    lemma_finished_sizes(old.children@, mid, th);
    assert(old.children@.len() == old.children.len());
    lemma_aggregated_sizes(mid, old.total_size, th, new.children@);
}

/// `out` holds the entries of `mid`, except that its last entry is an
/// "Others" block that holds the rest of them, counts them and is as large
/// as they are together.
pub open spec fn folds_into_others(out: Seq<Entry>, mid: Seq<Entry>) -> bool {
    &&& out.len() > 0
    &&& out.last() matches Entry::Others(o)
    &&& out.drop_last().to_multiset().add(o.entries@.to_multiset()) == mid.to_multiset()
    &&& o.entry_count == o.entries@.len()
    &&& o.size == sizes_sum(o.entries@)
}

/// Aggregation loses no entry: the children it returns hold the same
/// entries as before, except that a final "Others" entry, when one is
/// created, stands for the entries it holds.
proof fn lemma_aggregated_multiset(mid: Seq<Entry>, total: u64, th: AggThresholds, out: Seq<Entry>)
    requires
        aggregated(mid, total, th, out),
        mid.len() <= usize::MAX,
    ensures
        out.to_multiset() == mid.to_multiset() || folds_into_others(out, mid),
{
    broadcast use vstd::seq_lib::group_to_multiset_ensures;

    if mid.len() > th.max_entries {
        let order = choose|order: Seq<usize>|
            #[trigger] is_stable_desc_order(sizes_of(mid), order) && aggregated_from_sorted(
                reorder(mid, order),
                th.top_n as int,
                min_keep_size(total, th),
                out,
            );
        let sorted = reorder(mid, order);
        lemma_reorder_multiset(mid, order);
        if sorted.len() > th.top_n {
            let top = th.top_n as int;
            let min = min_keep_size(total, th);
            let rest = sorted.skip(top);
            let head = sorted.take(top) + large_part(rest, min);
            let small = small_part(rest, min);
            assert(sorted =~= sorted.take(top) + rest);
            vstd::seq_lib::lemma_multiset_commutative(sorted.take(top), rest);
            vstd::seq_lib::lemma_multiset_commutative(sorted.take(top), large_part(rest, min));
            lemma_parts_multiset(rest, min);
            assert(head.to_multiset().add(small.to_multiset()) =~= sorted.to_multiset());
            if small.len() > 0 {
                assert(out.drop_last() =~= head);
            } else {
                assert(small.to_multiset() =~= vstd::multiset::Multiset::empty());
                assert(out.to_multiset() =~= sorted.to_multiset());
            }
        }
    }
}

/// Law: finishing a directory loses no entry. Its children are its old
/// children, each finished, except that when small entries are folded
/// away, the final "Others" entry holds exactly them, counts them, and is as
/// large as they are together.
pub proof fn law_finish_loses_nothing(old: DirNode, new: DirNode, th: AggThresholds)
    requires
        finish_rel(old, new, th),
    ensures
        exists|mid: Seq<Entry>|
            #[trigger] children_finished(old.children@, mid, th) && (new.children@.to_multiset()
                == mid.to_multiset() || folds_into_others(new.children@, mid)),
{
    let mid = choose|mid: Seq<Entry>|
        children_finished(old.children@, mid, th) && #[trigger] is_dominant(mid, new.dominant_cat)
            && aggregated(mid, old.total_size, th, new.children@);
    assert(old.children@.len() == old.children.len());
    lemma_aggregated_multiset(mid, old.total_size, th, new.children@);
    assert(children_finished(old.children@, mid, th));
}

/// Law: a directory with no more children than `max_entries` keeps all of
/// them, in their order, each finished in turn: nothing is folded away.
pub proof fn law_finish_below_threshold_keeps_children(old: DirNode, new: DirNode, th: AggThresholds)
    requires
        finish_rel(old, new, th),
        old.children@.len() <= th.max_entries,
    ensures
        new.children@.len() == old.children@.len(),
        forall|i: int|
            0 <= i < old.children@.len() ==> finish_entry_rel(
                #[trigger] old.children@[i],
                new.children@[i],
                th,
            ),
{
    let mid = choose|mid: Seq<Entry>|
        children_finished(old.children@, mid, th) && #[trigger] is_dominant(mid, new.dominant_cat)
            && aggregated(mid, old.total_size, th, new.children@);
    assert(new.children@ == mid);
}

/// No directory at or below `d` has more children than `max_entries`.
pub open spec fn dir_within(d: DirNode, th: AggThresholds) -> bool
    decreases d, 2int,
{
    &&& d.children@.len() <= th.max_entries
    &&& entries_within(d.children@, th)
}

pub open spec fn entries_within(s: Seq<Entry>, th: AggThresholds) -> bool
    decreases s, 1int,
{
    forall|i: int| 0 <= i < s.len() ==> entry_within(#[trigger] s[i], th)
}

pub open spec fn entry_within(e: Entry, th: AggThresholds) -> bool
    decreases e, 0int,
{
    match e {
        Entry::Dir(d) => dir_within(d, th),
        _ => true,
    }
}

/// `y` is `x` with only recorded dominant categories changed, here and at
/// every depth below.
pub open spec fn dir_only_dominant_changed(x: DirNode, y: DirNode) -> bool
    decreases x, 2int,
{
    &&& y.path == x.path
    &&& y.name == x.name
    &&& y.total_size == x.total_size
    &&& y.file_count == x.file_count
    &&& y.access_denied == x.access_denied
    &&& entries_only_dominant_changed(x.children@, y.children@)
}

pub open spec fn entries_only_dominant_changed(s: Seq<Entry>, t: Seq<Entry>) -> bool
    decreases s, 1int,
{
    &&& s.len() == t.len()
    &&& forall|i: int| 0 <= i < s.len() ==> entry_only_dominant_changed(#[trigger] s[i], t[i])
}

pub open spec fn entry_only_dominant_changed(a: Entry, b: Entry) -> bool
    decreases a, 0int,
{
    match a {
        Entry::Dir(x) => match b {
            Entry::Dir(y) => dir_only_dominant_changed(x, y),
            _ => false,
        },
        _ => b == a,
    }
}

/// Every directory at or below `d` records a dominant category of its own
/// children.
pub open spec fn dominants_recorded(d: DirNode) -> bool
    decreases d, 2int,
{
    &&& is_dominant(d.children@, d.dominant_cat)
    &&& entries_dominants_recorded(d.children@)
}

pub open spec fn entries_dominants_recorded(s: Seq<Entry>) -> bool
    decreases s, 1int,
{
    forall|i: int| 0 <= i < s.len() ==> entry_dominants_recorded(#[trigger] s[i])
}

pub open spec fn entry_dominants_recorded(e: Entry) -> bool
    decreases e, 0int,
{
    match e {
        Entry::Dir(d) => dominants_recorded(d),
        _ => true,
    }
}

/// Law: when no directory of a tree has more children than `max_entries`,
/// finishing it changes nothing but the recorded dominant categories, and
/// afterwards every directory, at every depth, records a dominant category
/// of its own children (the one `compute_dominant` computes, up to ties).
pub proof fn law_finish_records_dominants(old: DirNode, new: DirNode, th: AggThresholds)
    requires
        finish_rel(old, new, th),
        dir_within(old, th),
    ensures
        dir_only_dominant_changed(old, new),
        dominants_recorded(new),
    decreases old,
{
    let mid = choose|mid: Seq<Entry>|
        children_finished(old.children@, mid, th) && #[trigger] is_dominant(mid, new.dominant_cat)
            && aggregated(mid, old.total_size, th, new.children@);
    assert(new.children@ == mid);
    assert forall|i: int| 0 <= i < old.children@.len() implies entry_only_dominant_changed(
        #[trigger] old.children@[i],
        new.children@[i],
    ) && entry_dominants_recorded(new.children@[i]) by {
        assert(finish_entry_rel(old.children@[i], mid[i], th));
        assert(entry_within(old.children@[i], th));
        if let Entry::Dir(d) = old.children@[i] {
            let d2 = mid[i]->Dir_0;
            assert(decreases_to!(old => old.children));
            assert(decreases_to!(old.children => old.children@));
            assert(decreases_to!(old.children@ => old.children@[i]));
            assert(decreases_to!(Entry::Dir(d) => d));
            law_finish_records_dominants(d, d2, th);
        }
    }
    assert forall|i: int| 0 <= i < new.children@.len() implies entry_dominants_recorded(
        #[trigger] new.children@[i],
    ) by {
        assert(entry_only_dominant_changed(old.children@[i], new.children@[i]));
    }
}

// ---------------------------------------------------------------------
// Copies.

/// `b` is a copy of `a`: the same variant with the same fields, children
/// copied in turn.
pub open spec fn same_entry(a: Entry, b: Entry) -> bool
    decreases a, 0int,
{
    match a {
        Entry::File(x) => b == Entry::File(x),
        Entry::Dir(x) => match b {
            Entry::Dir(y) => same_dir(x, y),
            _ => false,
        },
        Entry::Others(x) => match b {
            Entry::Others(y) => x.name == y.name && x.size == y.size && x.entry_count
                == y.entry_count && same_entries(x.entries@, y.entries@),
            _ => false,
        },
        Entry::Symlink(p) => b == Entry::Symlink(p),
        Entry::AccessDenied { path } => b == Entry::AccessDenied { path },
    }
}

pub open spec fn same_dir(x: DirNode, y: DirNode) -> bool
    decreases x, 1int,
{
    &&& x.path == y.path
    &&& x.name == y.name
    &&& x.total_size == y.total_size
    &&& x.file_count == y.file_count
    &&& x.access_denied == y.access_denied
    &&& x.dominant_cat == y.dominant_cat
    &&& same_entries(x.children@, y.children@)
}

pub open spec fn same_entries(s: Seq<Entry>, t: Seq<Entry>) -> bool
    decreases s, 2int,
{
    &&& s.len() == t.len()
    &&& forall|i: int| 0 <= i < s.len() ==> same_entry(#[trigger] s[i], t[i])
}

/// A copy has the same size and name.
pub proof fn lemma_same_entry_keeps(a: Entry, b: Entry)
    requires
        same_entry(a, b),
    ensures
        entry_size(a) == entry_size(b),
        entry_name_of(a) == entry_name_of(b),
{
}

fn copy_entries(v: &Vec<Entry>) -> (r: Vec<Entry>)
    ensures
        same_entries(v@, r@),
    decreases v@, 2int,
{
    let n = v.len();
    let mut r: Vec<Entry> = Vec::new();
    let mut i: usize = 0;
    while i < n
        invariant
            n == v@.len(),
            i <= n,
            r@.len() == i,
            forall|k: int| 0 <= k < i ==> same_entry(#[trigger] v@[k], r@[k]),
        decreases n - i,
    {
        proof {
            assert(decreases_to!(v@ => v@[i as int]));
        }
        let c = copy_entry(&v[i]);
        r.push(c);
        i = i + 1;
    }
    r
}

fn copy_dir(d: &DirNode) -> (r: DirNode)
    ensures
        same_dir(*d, r),
    decreases *d, 1int,
{
    proof {
        assert(decreases_to!(*d => d.children));
        assert(decreases_to!(d.children => d.children@));
    }
    DirNode {
        path: d.path.clone(),
        name: d.name.clone(),
        total_size: d.total_size,
        file_count: d.file_count,
        children: copy_entries(&d.children),
        access_denied: d.access_denied,
        dominant_cat: d.dominant_cat,
    }
}

fn copy_entry(e: &Entry) -> (r: Entry)
    ensures
        same_entry(*e, r),
    decreases *e, 0int,
{
    match e {
        Entry::File(f) => Entry::File(FileEntry { name: f.name.clone(), size: f.size }),
        Entry::Dir(d) => Entry::Dir(copy_dir(d)),
        Entry::Others(o) => {
            proof {
                assert(decreases_to!(*e => o.entries));
                assert(decreases_to!(o.entries => o.entries@));
            }
            Entry::Others(
                OthersEntry {
                    name: o.name.clone(),
                    size: o.size,
                    entry_count: o.entry_count,
                    entries: copy_entries(&o.entries),
                },
            )
        },
        Entry::Symlink(p) => Entry::Symlink(p.clone()),
        Entry::AccessDenied { path } => Entry::AccessDenied { path: path.clone() },
    }
}

impl Clone for ScanEvent {
    fn clone(&self) -> (r: Self)
        ensures
            match (*self, r) {
                (
                    ScanEvent::DirEntry { path: p1, size: s1, file_count: f1 },
                    ScanEvent::DirEntry { path: p2, size: s2, file_count: f2 },
                ) => p1 == p2 && s1 == s2 && f1 == f2,
                (
                    ScanEvent::Progress { files_scanned: f1, bytes_scanned: b1, current_path: p1 },
                    ScanEvent::Progress { files_scanned: f2, bytes_scanned: b2, current_path: p2 },
                ) => f1 == f2 && b1 == b2 && p1 == p2,
                (ScanEvent::AccessDenied { path: p1 }, ScanEvent::AccessDenied { path: p2 }) => p1 == p2,
                (ScanEvent::Error { path: p1, error: e1 }, ScanEvent::Error { path: p2, error: e2 }) => p1
                    == p2 && e1 == e2,
                (
                    ScanEvent::Complete { root: r1, duration: d1, total_files: t1, access_denied_count: c1 },
                    ScanEvent::Complete { root: r2, duration: d2, total_files: t2, access_denied_count: c2 },
                ) => same_dir(r1, r2) && d1 == d2 && t1 == t2 && c1 == c2,
                _ => false,
            },
    {
        match self {
            ScanEvent::DirEntry { path, size, file_count } => ScanEvent::DirEntry {
                path: path.clone(),
                size: *size,
                file_count: *file_count,
            },
            ScanEvent::Progress { files_scanned, bytes_scanned, current_path } => ScanEvent::Progress {
                files_scanned: *files_scanned,
                bytes_scanned: *bytes_scanned,
                current_path: current_path.clone(),
            },
            ScanEvent::AccessDenied { path } => ScanEvent::AccessDenied { path: path.clone() },
            ScanEvent::Error { path, error } => ScanEvent::Error {
                path: path.clone(),
                error: error.clone(),
            },
            ScanEvent::Complete { root, duration, total_files, access_denied_count } => {
                ScanEvent::Complete {
                    root: root.clone(),
                    duration: *duration,
                    total_files: *total_files,
                    access_denied_count: *access_denied_count,
                }
            },
        }
    }
}

impl Clone for FileEntry {
    fn clone(&self) -> (r: Self)
        ensures
            r == *self,
    {
        FileEntry { name: self.name.clone(), size: self.size }
    }
}

impl Clone for Entry {
    fn clone(&self) -> (r: Self)
        ensures
            same_entry(*self, r),
    {
        copy_entry(self)
    }
}

impl Clone for DirNode {
    fn clone(&self) -> (r: Self)
        ensures
            same_dir(*self, r),
    {
        copy_dir(self)
    }
}

impl Clone for OthersEntry {
    fn clone(&self) -> (r: Self)
        ensures
            same_entry(Entry::Others(*self), Entry::Others(r)),
    {
        OthersEntry {
            name: self.name.clone(),
            size: self.size,
            entry_count: self.entry_count,
            entries: copy_entries(&self.entries),
        }
    }
}

} // verus!
