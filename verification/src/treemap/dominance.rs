use vstd::prelude::*;

use crate::scanner::types::{entry_size, Entry};
use crate::sums::{lemma_sum_of_add, sum_of};
use crate::treemap::color::{category_present, category_total, entry_category, is_dominant, FileCategory};

verus! {

// What the dominant category of a directory means, stated over the files
// below it: the leaves found by looking into every subdirectory.

/// The entries below `s` that are not directories, found by looking into
/// every subdirectory, in order.
pub open spec fn leaves(s: Seq<Entry>) -> Seq<Entry>
    decreases s,
{
    if s.len() == 0 {
        Seq::empty()
    } else {
        leaves(s.drop_last()) + match s.last() {
            Entry::Dir(d) => leaves(d.children@),
            e => seq![e],
        }
    }
}

/// The size of an entry when it is of category `c`, else nothing.
pub open spec fn bytes_in(c: FileCategory) -> spec_fn(Entry) -> int {
    |e: Entry|
        if entry_category(e) == c {
            entry_size(e) as int
        } else {
            0
        }
}

/// Whether some leaf of `l` is of category `c`.
pub open spec fn has_leaf_of(l: Seq<Entry>, c: FileCategory) -> bool {
    exists|i: int| 0 <= i < l.len() && entry_category(#[trigger] l[i]) == c
}

proof fn lemma_has_leaf_concat(a: Seq<Entry>, b: Seq<Entry>, c: FileCategory)
    ensures
        has_leaf_of(a + b, c) == (has_leaf_of(a, c) || has_leaf_of(b, c)),
{
    let ab = a + b;
    if has_leaf_of(ab, c) {
        let i = choose|i: int| 0 <= i < ab.len() && entry_category(#[trigger] ab[i]) == c;
        if i < a.len() {
            assert(ab[i] == a[i]);
        } else {
            assert(ab[i] == b[i - a.len()]);
        }
    }
    if has_leaf_of(a, c) {
        let i = choose|i: int| 0 <= i < a.len() && entry_category(#[trigger] a[i]) == c;
        assert(ab[i] == a[i]);
    }
    if has_leaf_of(b, c) {
        let i = choose|i: int| 0 <= i < b.len() && entry_category(#[trigger] b[i]) == c;
        assert(ab[a.len() + i] == b[i]);
    }
}

proof fn lemma_total_is_leaf_bytes(s: Seq<Entry>, c: FileCategory)
    ensures
        category_total(s, c) == sum_of(leaves(s), bytes_in(c)),
        category_present(s, c) == has_leaf_of(leaves(s), c),
    decreases s,
{
    if s.len() == 0 {
        assert(!has_leaf_of(leaves(s), c));
    } else {
        let init = s.drop_last();
        lemma_total_is_leaf_bytes(init, c);
        let tail = match s.last() {
            Entry::Dir(d) => leaves(d.children@),
            e => seq![e],
        };
        assert(leaves(s) == leaves(init) + tail);
        lemma_sum_of_add(leaves(init), tail, bytes_in(c));
        lemma_has_leaf_concat(leaves(init), tail, c);
        match s.last() {
            Entry::Dir(d) => {
                lemma_total_is_leaf_bytes(d.children@, c);
            },
            e => {
                assert(tail.drop_last() =~= Seq::<Entry>::empty());
                assert(tail.last() == e);
                assert(sum_of(Seq::<Entry>::empty(), bytes_in(c)) == 0);
                assert(sum_of(tail, bytes_in(c)) == sum_of(tail.drop_last(), bytes_in(c)) + bytes_in(c)(
                    tail.last(),
                ));
                if entry_category(e) == c {
                    assert(tail[0] == e);
                }
            },
        }
    }
}

/// Law: the dominant category of a directory is that of some file below
/// it, and the files of that category take at least as many bytes as the
/// files of any other category that occurs below it, `Other` included;
/// with no file below, it is `Other`.
pub proof fn law_dominant_takes_most_space(s: Seq<Entry>, c: FileCategory)
    requires
        is_dominant(s, c),
    ensures
        leaves(s).len() == 0 ==> c == FileCategory::Other,
        leaves(s).len() > 0 ==> exists|i: int|
            0 <= i < leaves(s).len() && entry_category(#[trigger] leaves(s)[i]) == c,
        forall|i: int|
            0 <= i < leaves(s).len() ==> sum_of(leaves(s), bytes_in(c)) >= sum_of(
                leaves(s),
                bytes_in(entry_category(#[trigger] leaves(s)[i])),
            ),
{
    let l = leaves(s);
    lemma_total_is_leaf_bytes(s, c);
    if l.len() == 0 {
        assert forall|c2: FileCategory| !category_present(s, c2) by {
            lemma_total_is_leaf_bytes(s, c2);
        }
    } else {
        let c0 = entry_category(l[0]);
        lemma_total_is_leaf_bytes(s, c0);
        assert(has_leaf_of(l, c0));
        assert(category_present(s, c0));
        assert(has_leaf_of(l, c));
        assert forall|i: int| 0 <= i < l.len() implies sum_of(l, bytes_in(c)) >= sum_of(
            l,
            bytes_in(entry_category(#[trigger] l[i])),
        ) by {
            let ci = entry_category(l[i]);
            lemma_total_is_leaf_bytes(s, ci);
            assert(has_leaf_of(l, ci));
        }
    }
}

} // verus!
