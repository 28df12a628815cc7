use vstd::multiset::Multiset;
use vstd::prelude::*;

verus! {

broadcast use vstd::seq_lib::group_to_multiset_ensures;

/// Sum of `w` over a sequence.
pub open spec fn sum_of<A>(s: Seq<A>, w: spec_fn(A) -> int) -> int
    decreases s.len(),
{
    if s.len() == 0 {
        0
    } else {
        sum_of(s.drop_last(), w) + w(s.last())
    }
}

pub proof fn lemma_sum_of_push<A>(s: Seq<A>, x: A, w: spec_fn(A) -> int)
    ensures
        sum_of(s.push(x), w) == sum_of(s, w) + w(x),
{
    assert(s.push(x).drop_last() =~= s);
}

pub proof fn lemma_sum_of_add<A>(a: Seq<A>, b: Seq<A>, w: spec_fn(A) -> int)
    ensures
        sum_of(a + b, w) == sum_of(a, w) + sum_of(b, w),
    decreases b.len(),
{
    if b.len() == 0 {
        assert(a + b =~= a);
    } else {
        lemma_sum_of_add(a, b.drop_last(), w);
        assert((a + b).drop_last() =~= a + b.drop_last());
        assert((a + b).last() == b.last());
    }
}

pub proof fn lemma_sum_of_nonneg<A>(s: Seq<A>, w: spec_fn(A) -> int)
    requires
        forall|x: A| #[trigger] w(x) >= 0,
    ensures
        sum_of(s, w) >= 0,
    decreases s.len(),
{
    if s.len() > 0 {
        lemma_sum_of_nonneg(s.drop_last(), w);
    }
}

/// An element's share of a sum of nonnegative terms stays within the sum.
pub proof fn lemma_sum_of_elem_le<A>(s: Seq<A>, i: int, w: spec_fn(A) -> int)
    requires
        forall|x: A| #[trigger] w(x) >= 0,
        0 <= i < s.len(),
    ensures
        w(s[i]) <= sum_of(s, w),
    decreases s.len(),
{
    if i < s.len() - 1 {
        lemma_sum_of_elem_le(s.drop_last(), i, w);
    } else {
        lemma_sum_of_nonneg(s.drop_last(), w);
    }
}

pub proof fn lemma_sum_of_fold<A>(s: Seq<A>, w: spec_fn(A) -> int)
    ensures
        sum_of(s, w) == s.fold_left(0int, |acc: int, x: A| acc + w(x)),
    decreases s.len(),
{
    if s.len() > 0 {
        lemma_sum_of_fold(s.drop_last(), w);
    }
}

/// A sum does not depend on the order of its terms.
pub proof fn lemma_sum_of_multiset<A>(a: Seq<A>, b: Seq<A>, w: spec_fn(A) -> int)
    requires
        a.to_multiset() == b.to_multiset(),
    ensures
        sum_of(a, w) == sum_of(b, w),
{
    let f = |acc: int, x: A| acc + w(x);
    assert(vstd::seq_lib::commutative_foldl(f));
    vstd::seq_lib::lemma_fold_left_permutation(a, b, f, 0int);
    lemma_sum_of_fold(a, w);
    lemma_sum_of_fold(b, w);
}

pub proof fn lemma_map_values_fold<A, B>(s: Seq<A>, g: spec_fn(A) -> B)
    ensures
        s.map_values(g).to_multiset() == s.fold_left(
            Multiset::<B>::empty(),
            |m: Multiset<B>, x: A| m.insert(g(x)),
        ),
    decreases s.len(),
{
    if s.len() > 0 {
        lemma_map_values_fold(s.drop_last(), g);
        assert(s.map_values(g) =~= s.drop_last().map_values(g).push(g(s.last())));
    } else {
        assert(s.map_values(g) =~= Seq::<B>::empty());
        assert(s.map_values(g).to_multiset() =~= Multiset::<B>::empty());
    }
}

/// Mapping two sequences with the same elements gives sequences with the
/// same elements.
pub proof fn lemma_map_values_multiset<A, B>(a: Seq<A>, b: Seq<A>, g: spec_fn(A) -> B)
    requires
        a.to_multiset() == b.to_multiset(),
    ensures
        a.map_values(g).to_multiset() == b.map_values(g).to_multiset(),
{
    let f = |m: Multiset<B>, x: A| m.insert(g(x));
    assert forall|x: A, y: A, v: Multiset<B>| #[trigger] f(f(v, x), y) == f(f(v, y), x) by {
        assert(v.insert(g(x)).insert(g(y)) =~= v.insert(g(y)).insert(g(x)));
    }
    assert(vstd::seq_lib::commutative_foldl(f));
    vstd::seq_lib::lemma_fold_left_permutation(a, b, f, Multiset::<B>::empty());
    lemma_map_values_fold(a, g);
    lemma_map_values_fold(b, g);
}

} // verus!
