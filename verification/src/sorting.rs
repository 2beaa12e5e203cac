//! Ascending sort of a vector of indices, proved equal to vstd's `sort_by`.
use vstd::prelude::*;
use vstd::relations::sorted_by;
use vstd::seq_lib::group_to_multiset_ensures;

verus! {

/// The order in which line bookmarks are kept.
pub open spec fn usize_leq() -> spec_fn(usize, usize) -> bool {
    |a: usize, b: usize| a <= b
}

/// `s` in ascending order: the sequence that `Vec::sort` leaves.
pub open spec fn sorted_usizes(s: Seq<usize>) -> Seq<usize> {
    s.sort_by(usize_leq())
}

/// Two ascending sequences with the same elements, counted with multiplicity,
/// are the same sequence.
pub proof fn lemma_sorted_unique(a: Seq<usize>, b: Seq<usize>)
    requires
        sorted_by(a, usize_leq()),
        sorted_by(b, usize_leq()),
        a.to_multiset() == b.to_multiset(),
    ensures
        a == b,
    decreases a.len(),
{
    broadcast use group_to_multiset_ensures;

    a.to_multiset_ensures();
    b.to_multiset_ensures();
    if a.len() == 0 {
        assert(b.len() == 0);
        assert(a =~= b);
    } else {
        assert(b.len() == a.len());
        assert(a.to_multiset().count(a[0]) > 0);
        assert(b.contains(a[0]));
        assert(b.to_multiset().count(b[0]) > 0);
        assert(a.contains(b[0]));
        let i = choose|i: int| 0 <= i < b.len() && b[i] == a[0];
        let j = choose|j: int| 0 <= j < a.len() && a[j] == b[0];
        if i > 0 {
            assert(usize_leq()(b[0], b[i]));
        }
        if j > 0 {
            assert(usize_leq()(a[0], a[j]));
        }
        assert(a[0] == b[0]);
        assert(a.remove(0) =~= a.drop_first());
        assert(b.remove(0) =~= b.drop_first());
        assert(a.drop_first().to_multiset() == a.to_multiset().remove(a[0]));
        assert(b.drop_first().to_multiset() == b.to_multiset().remove(b[0]));
        assert forall|x: int, y: int| 0 <= x < y < a.drop_first().len() implies #[trigger] usize_leq()(a.drop_first()[x], a.drop_first()[y]) by {
            assert(usize_leq()(a[x + 1], a[y + 1]));
        }
        assert forall|x: int, y: int| 0 <= x < y < b.drop_first().len() implies #[trigger] usize_leq()(b.drop_first()[x], b.drop_first()[y]) by {
            assert(usize_leq()(b[x + 1], b[y + 1]));
        }
        lemma_sorted_unique(a.drop_first(), b.drop_first());
        assert forall|i: int| 0 <= i < a.len() implies a[i] == b[i] by {
            if i > 0 {
                assert(a[i] == a.drop_first()[i - 1]);
                assert(b[i] == b.drop_first()[i - 1]);
            }
        }
        assert(a =~= b);
    }
}

/// Sorts `v` in ascending order.
pub fn sort_usizes(v: &mut Vec<usize>)
    ensures
        final(v)@ == sorted_usizes(old(v)@),
{
    broadcast use group_to_multiset_ensures;

    let n = v.len();
    let mut out: Vec<usize> = Vec::new();
    let mut k: usize = 0;
    while k < n
        invariant
            n == v@.len(),
            v@ == old(v)@,
            k <= n,
            sorted_by(out@, usize_leq()),
            out@.to_multiset() == v@.subrange(0, k as int).to_multiset(),
        decreases n - k,
    {
        let x = v[k];
        let mut p: usize = 0;
        while p < out.len() && out[p] <= x
            invariant
                p <= out@.len(),
                forall|q: int| 0 <= q < p ==> out@[q] <= x,
            decreases out@.len() - p,
        {
            p = p + 1;
        }
        let ghost before = out@;
        out.insert(p, x);
        proof {
            assert(out@ == before.insert(p as int, x));
            assert forall|a: int, b: int| 0 <= a < b < out@.len() implies #[trigger] usize_leq()(out@[a], out@[b]) by {
                if a < p && b < p {
                    assert(usize_leq()(before[a], before[b]));
                } else if a < p && b == p {
                } else if a < p {
                    assert(usize_leq()(before[a], before[b - 1]));
                } else if a == p {
                    if p < before.len() {
                        assert(before[p as int] > x);
                        if b - 1 > p {
                            assert(usize_leq()(before[p as int], before[b - 1]));
                        }
                    }
                } else {
                    assert(usize_leq()(before[a - 1], before[b - 1]));
                }
            }
            assert(out@.remove(p as int) =~= before);
            out@.to_multiset_ensures();
            before.to_multiset_ensures();
            assert(out@.to_multiset().remove(x) == before.to_multiset());
            assert(out@.to_multiset().count(x) > 0) by {
                assert(out@.contains(x)) by {
                    assert(out@[p as int] == x);
                }
            }
            assert(out@.to_multiset() =~= before.to_multiset().insert(x));
            assert(v@.subrange(0, k + 1) =~= v@.subrange(0, k as int).push(x));
            v@.subrange(0, k as int).to_multiset_ensures();
        }
        k = k + 1;
    }
    proof {
        assert(v@.subrange(0, n as int) =~= v@);
        old(v)@.lemma_sort_by_ensures(usize_leq());
        lemma_sorted_unique(out@, sorted_usizes(old(v)@));
    }
    *v = out;
}

} // verus!
