use vstd::prelude::*;

verus! {

broadcast use vstd::seq_lib::group_to_multiset_ensures;

/// Order of (size, index) keys: larger sizes first, and among equal sizes
/// the smaller index first.
pub open spec fn key_before(a: (u64, usize), b: (u64, usize)) -> bool {
    a.0 > b.0 || (a.0 == b.0 && a.1 <= b.1)
}

pub open spec fn keys_sorted(s: Seq<(u64, usize)>) -> bool {
    forall|i: int, j: int| 0 <= i < j < s.len() ==> key_before(s[i], s[j])
}

/// Sorts (size, index) keys, largest size first and, among equal sizes, by
/// index; the result holds exactly the keys given.
pub fn sort_keys(v: Vec<(u64, usize)>) -> (r: Vec<(u64, usize)>)
    ensures
        r@.to_multiset() == v@.to_multiset(),
        keys_sorted(r@),
    decreases v@.len(),
{
    let n = v.len();
    if n <= 1 {
        return v;
    }
    let mut left = v;
    let ghost whole = left@;
    let right = left.split_off(n / 2);
    proof {
        assert(whole =~= left@ + right@);
        vstd::seq_lib::lemma_multiset_commutative(left@, right@);
    }
    let l = sort_keys(left);
    let r = sort_keys(right);
    merge_keys(l, r)
}

fn merge_keys(a: Vec<(u64, usize)>, b: Vec<(u64, usize)>) -> (r: Vec<(u64, usize)>)
    requires
        keys_sorted(a@),
        keys_sorted(b@),
    ensures
        r@.to_multiset() == a@.to_multiset().add(b@.to_multiset()),
        keys_sorted(r@),
{
    let mut out: Vec<(u64, usize)> = Vec::new();
    let mut i: usize = 0;
    let mut j: usize = 0;
    proof {
        assert(a@.take(0) =~= Seq::<(u64, usize)>::empty());
        assert(b@.take(0) =~= Seq::<(u64, usize)>::empty());
        assert(out@.to_multiset() =~= a@.take(0).to_multiset().add(b@.take(0).to_multiset()));
    }
    while i < a.len() || j < b.len()
        invariant
            keys_sorted(a@),
            keys_sorted(b@),
            i <= a@.len(),
            j <= b@.len(),
            out@.to_multiset() == a@.take(i as int).to_multiset().add(
                b@.take(j as int).to_multiset(),
            ),
            keys_sorted(out@),
            out@.len() > 0 && i < a@.len() ==> key_before(out@.last(), a@[i as int]),
            out@.len() > 0 && j < b@.len() ==> key_before(out@.last(), b@[j as int]),
        decreases a@.len() - i + b@.len() - j,
    {
        let take_a = j >= b.len() || (i < a.len() && key_before_exec(a[i], b[j]));
        if take_a {
            let x = a[i];
            proof {
                assert(a@.take(i + 1) =~= a@.take(i as int).push(x));
            }
            let ghost prev = out@;
            out.push(x);
            proof {
                assert forall|p: int, q: int| 0 <= p < q < out@.len() implies key_before(
                    out@[p],
                    out@[q],
                ) by {
                    if q == out@.len() - 1 && p < q {
                        if p < prev.len() - 1 {
                            assert(key_before(prev[p], prev[prev.len() - 1]));
                        }
                    }
                }
            }
            i = i + 1;
        } else {
            let x = b[j];
            proof {
                assert(b@.take(j + 1) =~= b@.take(j as int).push(x));
            }
            let ghost prev = out@;
            out.push(x);
            proof {
                assert forall|p: int, q: int| 0 <= p < q < out@.len() implies key_before(
                    out@[p],
                    out@[q],
                ) by {
                    if q == out@.len() - 1 && p < q {
                        if p < prev.len() - 1 {
                            assert(key_before(prev[p], prev[prev.len() - 1]));
                        }
                    }
                }
            }
            j = j + 1;
        }
    }
    proof {
        assert(a@.take(i as int) =~= a@);
        assert(b@.take(j as int) =~= b@);
    }
    out
}

fn key_before_exec(a: (u64, usize), b: (u64, usize)) -> (r: bool)
    ensures
        r == key_before(a, b),
{
    a.0 > b.0 || (a.0 == b.0 && a.1 <= b.1)
}

/// `order` lists the indices of `sizes` from the largest size to the
/// smallest, equal sizes in their original order: the order a stable sort by
/// decreasing size gives.
pub open spec fn is_stable_desc_order(sizes: Seq<u64>, order: Seq<usize>) -> bool {
    &&& order.len() == sizes.len()
    &&& order.to_multiset() == index_seq(sizes.len()).to_multiset()
    &&& forall|k: int| 0 <= k < order.len() ==> #[trigger] order[k] < sizes.len()
    &&& forall|k: int, l: int| 0 <= k < l < order.len() ==> #[trigger] order[k] != #[trigger] order[l]
    &&& forall|k: int, l: int|
        0 <= k < l < order.len() ==> sizes[#[trigger] order[k] as int] >= sizes[#[trigger] order[l] as int]
    &&& forall|k: int, l: int|
        0 <= k < l < order.len() && sizes[order[k] as int] == sizes[order[l] as int] ==> #[trigger] order[k]
            < #[trigger] order[l]
}

/// The indices `0, 1, ..., n - 1`.
pub open spec fn index_seq(n: nat) -> Seq<usize> {
    Seq::new(n, |i: int| i as usize)
}

pub open spec fn keys_of(sizes: Seq<u64>) -> Seq<(u64, usize)> {
    Seq::new(sizes.len(), |i: int| (sizes[i], i as usize))
}

/// The indices of `sizes`, largest size first, equal sizes in input order.
pub fn stable_desc_order(sizes: &Vec<u64>) -> (order: Vec<usize>)
    requires
        sizes@.len() <= usize::MAX,
    ensures
        is_stable_desc_order(sizes@, order@),
{
    let n = sizes.len();
    let mut keys: Vec<(u64, usize)> = Vec::new();
    let mut i: usize = 0;
    while i < n
        invariant
            n == sizes@.len(),
            i <= n,
            keys@ =~= keys_of(sizes@).take(i as int),
        decreases n - i,
    {
        keys.push((sizes[i], i));
        i = i + 1;
    }
    let ghost input = keys@;
    proof {
        assert(input =~= keys_of(sizes@));
    }
    let sorted = sort_keys(keys);
    let ghost r = sorted@;
    proof {
        assert(r.len() == r.to_multiset().len());
        assert(input.len() == input.to_multiset().len());
        assert(input.no_duplicates());
        input.lemma_multiset_has_no_duplicates();
        assert forall|x: (u64, usize)| r.to_multiset().contains(x) implies r.to_multiset().count(x)
            == 1 by {}
        r.lemma_multiset_has_no_duplicates_conv();
        assert forall|k: int| 0 <= k < r.len() implies #[trigger] r[k] == (
            sizes@[r[k].1 as int],
            r[k].1,
        ) && r[k].1 < n by {
            assert(r.contains(r[k]));
            assert(r.to_multiset().count(r[k]) > 0);
            assert(input.contains(r[k]));
            let w = choose|w: int| 0 <= w < input.len() && input[w] == r[k];
            assert(input[w] == (sizes@[w], w as usize));
        }
    }
    proof {
        let g = |key: (u64, usize)| key.1;
        crate::sums::lemma_map_values_multiset(r, input, g);
        assert(input.map_values(g) =~= index_seq(n as nat));
    }
    let mut order: Vec<usize> = Vec::new();
    let mut k: usize = 0;
    while k < n
        invariant
            n == sizes@.len() == r.len(),
            r == sorted@,
            k <= n,
            order@.len() == k,
            forall|q: int| 0 <= q < k ==> #[trigger] order@[q] == r[q].1,
        decreases n - k,
    {
        order.push(sorted[k].1);
        k = k + 1;
    }
    proof {
        assert(order@ =~= r.map_values(|key: (u64, usize)| key.1));
        assert forall|p: int, q: int| 0 <= p < q < order@.len() implies #[trigger] order@[p]
            != #[trigger] order@[q] by {
            assert(r[p] == (sizes@[r[p].1 as int], r[p].1));
            assert(r[q] == (sizes@[r[q].1 as int], r[q].1));
            assert(r[p] != r[q]);
        }
        assert forall|p: int, q: int| 0 <= p < q < order@.len() implies sizes@[#[trigger] order@[p] as int]
            >= sizes@[#[trigger] order@[q] as int] by {
            assert(r[p] == (sizes@[r[p].1 as int], r[p].1));
            assert(r[q] == (sizes@[r[q].1 as int], r[q].1));
            assert(key_before(r[p], r[q]));
        }
        assert forall|p: int, q: int|
            0 <= p < q < order@.len() && sizes@[order@[p] as int] == sizes@[order@[q] as int] implies #[trigger] order@[p]
            < #[trigger] order@[q] by {
            assert(r[p] == (sizes@[r[p].1 as int], r[p].1));
            assert(r[q] == (sizes@[r[q].1 as int], r[q].1));
            assert(key_before(r[p], r[q]));
            assert(r[p] != r[q]);
        }
    }
    order
}

} // verus!
