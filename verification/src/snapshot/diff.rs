use vstd::prelude::*;

use crate::scanner::types::{
    entry_name_of, entry_size, lemma_same_entry_keeps, same_entries, same_entry, sizes_sum,
    DirNode, Entry, FileEntry,
};
use crate::treemap::color::FileCategory;

verus! {

/// How an entry changed between an older and a newer tree.
#[derive(Debug, Clone, Copy, PartialEq, Eq, Structural)]
pub enum ChangeType {
    Unchanged,
    Added,
    Removed,
    Grown,
    Shrunk,
}

/// One entry of a level of the comparison.
#[derive(Debug)]
pub struct DiffNode {
    pub entry: Entry,
    pub change: ChangeType,
    pub old_size: Option<u64>,
    pub new_size: u64,
    /// Position of the entry among the old directory's children, for entries
    /// present in the old tree.
    pub child_index: Option<usize>,
}

impl Clone for DiffNode {
    fn clone(&self) -> (r: Self)
        ensures
            same_entry(self.entry, r.entry),
            r.change == self.change,
            r.old_size == self.old_size,
            r.new_size == self.new_size,
            r.child_index == self.child_index,
    {
        DiffNode {
            entry: self.entry.clone(),
            change: self.change,
            old_size: self.old_size,
            new_size: self.new_size,
            child_index: self.child_index,
        }
    }
}

/// The name entries are matched by.
pub fn entry_name(entry: &Entry) -> (r: String)
    ensures
        r@ == entry_name_of(*entry),
{
    entry.name()
}

/// Index of the first entry of `s` at or after `from` whose name is `n`, or
/// -1 when there is none.
pub open spec fn first_named(s: Seq<Entry>, n: Seq<char>, from: int) -> int
    decreases s.len() - from,
{
    if from >= s.len() || from < 0 {
        -1
    } else if entry_name_of(s[from]) == n {
        from
    } else {
        first_named(s, n, from + 1)
    }
}

/// Whether some entry of `s` is named `n`.
pub open spec fn has_name(s: Seq<Entry>, n: Seq<char>) -> bool {
    exists|i: int| 0 <= i < s.len() && entry_name_of(#[trigger] s[i]) == n
}

/// Indices of the entries of `olds[0..hi]` whose names no entry of `news`
/// has, in order.
pub open spec fn removed_indices(olds: Seq<Entry>, news: Seq<Entry>, hi: int) -> Seq<int>
    decreases hi,
{
    if hi <= 0 {
        Seq::empty()
    } else if has_name(news, entry_name_of(olds[hi - 1])) {
        removed_indices(olds, news, hi - 1)
    } else {
        removed_indices(olds, news, hi - 1).push(hi - 1)
    }
}

/// How the size of a matched entry changed.
pub open spec fn change_of(old_size: u64, new_size: u64) -> ChangeType {
    if new_size > old_size {
        ChangeType::Grown
    } else if new_size < old_size {
        ChangeType::Shrunk
    } else {
        ChangeType::Unchanged
    }
}

/// `d` describes the new entry `e` against the old children `olds`: it is
/// matched with the first old entry of the same name, or is new.
pub open spec fn diff_of_new(olds: Seq<Entry>, e: Entry, d: DiffNode) -> bool {
    let j = first_named(olds, entry_name_of(e), 0);
    &&& same_entry(e, d.entry)
    &&& d.new_size == entry_size(e)
    &&& if j < 0 {
        &&& d.change == ChangeType::Added
        &&& d.old_size is None
        &&& d.child_index is None
    } else {
        &&& d.change == change_of(entry_size(olds[j]), entry_size(e))
        &&& d.old_size == Some(entry_size(olds[j]))
        &&& d.child_index == Some(j as usize)
    }
}

/// `d` describes the old entry `olds[j]` as removed.
pub open spec fn diff_of_removed(olds: Seq<Entry>, j: int, d: DiffNode) -> bool {
    &&& same_entry(olds[j], d.entry)
    &&& d.change == ChangeType::Removed
    &&& d.old_size == Some(entry_size(olds[j]))
    &&& d.new_size == 0
    &&& d.child_index == Some(j as usize)
}

/// `r` is the comparison of one level: one node per new entry, in order, then
/// one per old entry whose name is gone, in order.
pub open spec fn is_level_diff(olds: Seq<Entry>, news: Seq<Entry>, r: Seq<DiffNode>) -> bool {
    let rem = removed_indices(olds, news, olds.len() as int);
    &&& r.len() == news.len() + rem.len()
    &&& forall|k: int| 0 <= k < news.len() ==> diff_of_new(olds, news[k], #[trigger] r[k])
    &&& forall|k: int|
        0 <= k < rem.len() ==> diff_of_removed(olds, rem[k], #[trigger] r[news.len() + k])
}

proof fn lemma_first_named(s: Seq<Entry>, n: Seq<char>, from: int)
    requires
        0 <= from,
    ensures
        first_named(s, n, from) == -1 || (from <= first_named(s, n, from) < s.len()
            && entry_name_of(s[first_named(s, n, from)]) == n),
        first_named(s, n, from) == -1 ==> forall|i: int|
            from <= i < s.len() ==> entry_name_of(#[trigger] s[i]) != n,
        first_named(s, n, from) >= 0 ==> forall|i: int|
            from <= i < first_named(s, n, from) ==> entry_name_of(#[trigger] s[i]) != n,
    decreases s.len() - from,
{
    if from < s.len() && entry_name_of(s[from]) != n {
        lemma_first_named(s, n, from + 1);
    }
}

proof fn lemma_removed_indices(olds: Seq<Entry>, news: Seq<Entry>, hi: int)
    requires
        0 <= hi <= olds.len(),
    ensures
        forall|k: int|
            0 <= k < removed_indices(olds, news, hi).len() ==> 0 <= #[trigger] removed_indices(
                olds,
                news,
                hi,
            )[k] < hi,
        removed_indices(olds, news, hi).len() <= hi,
    decreases hi,
{
    if hi > 0 {
        lemma_removed_indices(olds, news, hi - 1);
    }
}

/// The names of a sequence of entries.
fn names_of(v: &Vec<Entry>) -> (r: Vec<String>)
    ensures
        r@.len() == v@.len(),
        forall|i: int| 0 <= i < v@.len() ==> #[trigger] r@[i]@ == entry_name_of(v@[i]),
{
    let n = v.len();
    let mut r: Vec<String> = Vec::new();
    let mut i: usize = 0;
    while i < n
        invariant
            n == v@.len(),
            i <= n,
            r@.len() == i,
            forall|k: int| 0 <= k < i ==> #[trigger] r@[k]@ == entry_name_of(v@[k]),
        decreases n - i,
    {
        r.push(v[i].name());
        i = i + 1;
    }
    r
}

/// Index of the first name equal to `name`, or `None`.
fn find_name(names: &Vec<String>, name: &String, Ghost(s): Ghost<Seq<Entry>>) -> (r: Option<usize>)
    requires
        names@.len() == s.len(),
        forall|i: int| 0 <= i < s.len() ==> #[trigger] names@[i]@ == entry_name_of(s[i]),
    ensures
        match r {
            Some(j) => j as int == first_named(s, name@, 0),
            None => first_named(s, name@, 0) == -1,
        },
{
    let n = names.len();
    let mut j: usize = 0;
    proof {
        lemma_first_named(s, name@, 0);
    }
    while j < n
        invariant
            n == names@.len() == s.len(),
            j <= n,
            forall|i: int| 0 <= i < s.len() ==> #[trigger] names@[i]@ == entry_name_of(s[i]),
            first_named(s, name@, 0) == first_named(s, name@, j as int),
        decreases n - j,
    {
        if names[j] == *name {
            return Some(j);
        }
        j = j + 1;
    }
    None
}

/// Compares one level of two trees, matching entries by name: every entry of
/// the new directory is Added, or compared by size with the first old entry
/// of the same name; every old entry whose name is gone is Removed.
pub fn diff_level(old: &DirNode, new: &DirNode) -> (r: Vec<DiffNode>)
    ensures
        is_level_diff(old.children@, new.children@, r@),
{
    let olds = &old.children;
    let news = &new.children;
    let old_names = names_of(olds);
    let new_names = names_of(news);
    let mut result: Vec<DiffNode> = Vec::new();
    let n_new = news.len();
    let n_old = olds.len();
    let mut k: usize = 0;
    while k < n_new
        invariant
            n_new == news@.len(),
            n_old == olds@.len(),
            olds == &old.children,
            news == &new.children,
            old_names@.len() == olds@.len(),
            forall|i: int| 0 <= i < olds@.len() ==> #[trigger] old_names@[i]@ == entry_name_of(olds@[i]),
            new_names@.len() == news@.len(),
            forall|i: int| 0 <= i < news@.len() ==> #[trigger] new_names@[i]@ == entry_name_of(news@[i]),
            k <= n_new,
            result@.len() == k,
            forall|q: int| 0 <= q < k ==> diff_of_new(olds@, news@[q], #[trigger] result@[q]),
        decreases n_new - k,
    {
        let e = &news[k];
        let new_size = e.size();
        proof {
            lemma_first_named(olds@, entry_name_of(news@[k as int]), 0);
        }
        let node = match find_name(&old_names, &new_names[k], Ghost(olds@)) {
            None => DiffNode {
                entry: e.clone(),
                change: ChangeType::Added,
                old_size: None,
                new_size,
                child_index: None,
            },
            Some(j) => {
                let old_size = olds[j].size();
                let change = if new_size > old_size {
                    ChangeType::Grown
                } else if new_size < old_size {
                    ChangeType::Shrunk
                } else {
                    ChangeType::Unchanged
                };
                DiffNode {
                    entry: e.clone(),
                    change,
                    old_size: Some(old_size),
                    new_size,
                    child_index: Some(j),
                }
            },
        };
        result.push(node);
        k = k + 1;
    }
    let ghost rem_all = removed_indices(olds@, news@, n_old as int);
    let mut j: usize = 0;
    proof {
        lemma_removed_indices(olds@, news@, n_old as int);
    }
    while j < n_old
        invariant
            n_new == news@.len(),
            n_old == olds@.len(),
            olds == &old.children,
            news == &new.children,
            old_names@.len() == olds@.len(),
            forall|i: int| 0 <= i < olds@.len() ==> #[trigger] old_names@[i]@ == entry_name_of(olds@[i]),
            new_names@.len() == news@.len(),
            forall|i: int| 0 <= i < news@.len() ==> #[trigger] new_names@[i]@ == entry_name_of(news@[i]),
            j <= n_old,
            result@.len() == n_new + removed_indices(olds@, news@, j as int).len(),
            forall|q: int| 0 <= q < n_new ==> diff_of_new(olds@, news@[q], #[trigger] result@[q]),
            forall|q: int|
                0 <= q < removed_indices(olds@, news@, j as int).len() ==> diff_of_removed(
                    olds@,
                    removed_indices(olds@, news@, j as int)[q],
                    #[trigger] result@[n_new + q],
                ),
        decreases n_old - j,
    {
        let found = find_name(&new_names, &old_names[j], Ghost(news@));
        proof {
            lemma_first_named(news@, entry_name_of(olds@[j as int]), 0);
            lemma_removed_indices(olds@, news@, j as int);
        }
        match found {
            Some(_) => {
                proof {
                    let w = first_named(news@, entry_name_of(olds@[j as int]), 0);
                    assert(entry_name_of(news@[w]) == entry_name_of(olds@[j as int]));
                    assert(has_name(news@, entry_name_of(olds@[j as int])));
                    assert(removed_indices(olds@, news@, j + 1) == removed_indices(
                        olds@,
                        news@,
                        j as int,
                    ));
                }
            },
            None => {
                proof {
                    assert(!has_name(news@, entry_name_of(olds@[j as int])));
                }
                let e = &olds[j];
                let node = DiffNode {
                    entry: e.clone(),
                    change: ChangeType::Removed,
                    old_size: Some(e.size()),
                    new_size: 0,
                    child_index: Some(j),
                };
                let ghost before = result@;
                result.push(node);
                proof {
                    let rem = removed_indices(olds@, news@, j + 1);
                    assert(rem == removed_indices(olds@, news@, j as int).push(j as int));
                    assert forall|q: int| 0 <= q < rem.len() implies diff_of_removed(
                        olds@,
                        rem[q],
                        #[trigger] result@[n_new + q],
                    ) by {
                        if q < rem.len() - 1 {
                            assert(result@[n_new + q] == before[n_new + q]);
                        }
                    }
                    assert forall|q: int| 0 <= q < n_new implies diff_of_new(
                        olds@,
                        news@[q],
                        #[trigger] result@[q],
                    ) by {
                        assert(result@[q] == before[q]);
                    }
                }
            },
        }
        j = j + 1;
    }
    result
}

/// No two entries of `s` share a name.
pub open spec fn names_distinct(s: Seq<Entry>) -> bool {
    forall|i: int, j: int|
        0 <= i < j < s.len() ==> entry_name_of(#[trigger] s[i]) != entry_name_of(#[trigger] s[j])
}

proof fn lemma_first_named_at(s: Seq<Entry>, k: int)
    requires
        names_distinct(s),
        0 <= k < s.len(),
    ensures
        first_named(s, entry_name_of(s[k]), 0) == k,
{
    lemma_first_named(s, entry_name_of(s[k]), 0);
    let f = first_named(s, entry_name_of(s[k]), 0);
    if f != k {
        if f == -1 {
            assert(entry_name_of(s[k]) != entry_name_of(s[k]));
        } else if f < k {
            assert(entry_name_of(s[f]) != entry_name_of(s[k]));
        } else {
            assert(entry_name_of(s[k]) != entry_name_of(s[k]));
        }
    }
}

proof fn lemma_none_removed(olds: Seq<Entry>, news: Seq<Entry>, hi: int)
    requires
        same_entries(olds, news),
        0 <= hi <= olds.len(),
    ensures
        removed_indices(olds, news, hi).len() == 0,
    decreases hi,
{
    if hi > 0 {
        lemma_none_removed(olds, news, hi - 1);
        lemma_same_entry_keeps(olds[hi - 1], news[hi - 1]);
        assert(entry_name_of(news[hi - 1]) == entry_name_of(olds[hi - 1]));
        assert(has_name(news, entry_name_of(olds[hi - 1])));
    }
}

/// Law: comparing a level with a copy of itself, when its names are
/// distinct, reports every entry as Unchanged, with its own size on both
/// sides, and nothing as removed.
pub proof fn law_diff_of_copy_unchanged(olds: Seq<Entry>, news: Seq<Entry>, r: Seq<DiffNode>)
    requires
        same_entries(olds, news),
        names_distinct(olds),
        is_level_diff(olds, news, r),
    ensures
        r.len() == news.len(),
        forall|k: int|
            0 <= k < r.len() ==> (#[trigger] r[k]).change == ChangeType::Unchanged && r[k].old_size
                == Some(r[k].new_size),
{
    lemma_none_removed(olds, news, olds.len() as int);
    assert forall|k: int| 0 <= k < r.len() implies (#[trigger] r[k]).change == ChangeType::Unchanged
        && r[k].old_size == Some(r[k].new_size) by {
        assert(diff_of_new(olds, news[k], r[k]));
        lemma_same_entry_keeps(olds[k], news[k]);
        lemma_first_named_at(olds, k);
    }
}

/// The names of a sequence of entries.
pub open spec fn names_seq(s: Seq<Entry>) -> Seq<Seq<char>> {
    s.map_values(|e: Entry| entry_name_of(e))
}

/// The set of names of a sequence of entries.
pub open spec fn name_set(s: Seq<Entry>) -> Set<Seq<char>> {
    names_seq(s).to_set()
}

proof fn lemma_removed_members(olds: Seq<Entry>, news: Seq<Entry>, hi: int)
    requires
        0 <= hi <= olds.len(),
    ensures
        forall|j: int|
            #![trigger removed_indices(olds, news, hi).contains(j)]
            removed_indices(olds, news, hi).contains(j) <==> (0 <= j < hi && !has_name(
                news,
                entry_name_of(olds[j]),
            )),
        forall|p: int, q: int|
            0 <= p < q < removed_indices(olds, news, hi).len() ==> removed_indices(olds, news, hi)[p]
                < removed_indices(olds, news, hi)[q],
    decreases hi,
{
    if hi > 0 {
        lemma_removed_members(olds, news, hi - 1);
        lemma_removed_indices(olds, news, hi - 1);
        let prev = removed_indices(olds, news, hi - 1);
        if !has_name(news, entry_name_of(olds[hi - 1])) {
            let cur = prev.push(hi - 1);
            assert forall|j: int| cur.contains(j) <==> (0 <= j < hi && !has_name(
                news,
                entry_name_of(olds[j]),
            )) by {
                if j == hi - 1 {
                    assert(cur[cur.len() - 1] == j);
                }
                if cur.contains(j) && j != hi - 1 {
                    let k = choose|k: int| 0 <= k < cur.len() && cur[k] == j;
                    assert(prev[k] == j);
                    assert(prev.contains(j));
                }
                if prev.contains(j) {
                    let k = choose|k: int| 0 <= k < prev.len() && prev[k] == j;
                    assert(cur[k] == j);
                }
            }
        }
    }
}

proof fn lemma_has_name_in_set(s: Seq<Entry>, n: Seq<char>)
    ensures
        has_name(s, n) <==> name_set(s).contains(n),
{
    if has_name(s, n) {
        let i = choose|i: int| 0 <= i < s.len() && entry_name_of(#[trigger] s[i]) == n;
        assert(names_seq(s)[i] == n);
    }
    if name_set(s).contains(n) {
        let i = choose|i: int| 0 <= i < names_seq(s).len() && names_seq(s)[i] == n;
        assert(entry_name_of(s[i]) == n);
    }
}

/// Law: when names are distinct on each side, a level comparison has one
/// node per name found on either side.
pub proof fn law_diff_count_is_union(olds: Seq<Entry>, news: Seq<Entry>, r: Seq<DiffNode>)
    requires
        names_distinct(olds),
        names_distinct(news),
        is_level_diff(olds, news, r),
    ensures
        r.len() == name_set(olds).union(name_set(news)).len(),
{
    let rem = removed_indices(olds, news, olds.len() as int);
    lemma_removed_members(olds, news, olds.len() as int);
    lemma_removed_indices(olds, news, olds.len() as int);
    let rn = rem.map_values(|j: int| entry_name_of(olds[j]));
    let a = name_set(olds);
    let b = name_set(news);
    assert(names_seq(news).no_duplicates());
    names_seq(news).unique_seq_to_set();
    assert(rn.no_duplicates()) by {
        assert forall|p: int, q: int| 0 <= p < rn.len() && 0 <= q < rn.len() && p != q implies rn[p]
            != rn[q] by {
            if p < q {
                assert(rem[p] < rem[q]);
            } else {
                assert(rem[q] < rem[p]);
            }
        }
    }
    rn.unique_seq_to_set();
    assert(rn.to_set() =~= a.difference(b)) by {
        assert forall|x: Seq<char>| rn.to_set().contains(x) <==> a.difference(b).contains(x) by {
            lemma_has_name_in_set(news, x);
            if rn.to_set().contains(x) {
                let k = choose|k: int| 0 <= k < rn.len() && rn[k] == x;
                assert(rem.contains(rem[k]));
                assert(names_seq(olds)[rem[k]] == x);
            }
            if a.difference(b).contains(x) {
                let i = choose|i: int| 0 <= i < names_seq(olds).len() && names_seq(olds)[i] == x;
                assert(entry_name_of(olds[i]) == x);
                assert(rem.contains(i));
                let k = choose|k: int| 0 <= k < rem.len() && rem[k] == i;
                assert(rn[k] == x);
            }
        }
    }
    vstd::seq_lib::seq_to_set_is_finite(names_seq(olds));
    vstd::seq_lib::seq_to_set_is_finite(names_seq(news));
    assert(a.union(b) =~= a.difference(b).union(b));
    vstd::set_lib::lemma_set_disjoint_lens(a.difference(b), b);
}

/// A directory `C:\<name>` holding `children`, its total the sum of their
/// sizes and its file count their number; used to build trees by hand.
pub fn make_test_dir(name: &str, children: Vec<Entry>) -> (d: DirNode)
    requires
        sizes_sum(children@) <= u64::MAX,
    ensures
        d.path@ == seq!['C', ':', '\\'] + name@,
        d.name@ == name@,
        d.total_size == sizes_sum(children@),
        d.file_count == children@.len(),
        d.children == children,
        !d.access_denied,
        d.dominant_cat == FileCategory::Other,
{
    let n = children.len();
    let mut total: u64 = 0;
    let mut i: usize = 0;
    proof {
        crate::scanner::types::lemma_weights_nonneg();
        assert(children@.take(0) =~= Seq::<Entry>::empty());
    }
    while i < n
        invariant
            n == children@.len(),
            i <= n,
            total == sizes_sum(children@.take(i as int)),
            sizes_sum(children@) <= u64::MAX,
        decreases n - i,
    {
        proof {
            assert(children@.take(i + 1) =~= children@.take(i as int).push(children@[i as int]));
            crate::sums::lemma_sum_of_push(children@.take(i as int), children@[i as int], crate::scanner::types::size_w());
            crate::scanner::types::lemma_prefix_sum_le(children@, i + 1);
        }
        total = total + children[i].size();
        i = i + 1;
    }
    proof {
        assert(children@.take(n as int) =~= children@);
        reveal_strlit("C:\\");
    }
    let mut path = String::from_str("C:\\");
    path.append(name);
    DirNode {
        path,
        name: name.to_owned(),
        total_size: total,
        file_count: n as u64,
        children,
        access_denied: false,
        dominant_cat: FileCategory::Other,
    }
}

/// The comparison of two trees, shown one level at a time: the level of the
/// two roots.
pub fn diff_trees_recursive(old: &DirNode, new: &DirNode) -> (r: Vec<DiffNode>)
    ensures
        is_level_diff(old.children@, new.children@, r@),
{
    diff_level(old, new)
}

} // verus!
