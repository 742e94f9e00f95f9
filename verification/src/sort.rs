//! A stable insertion sort over any element type that carries a total
//! preorder. The contract fixes the result exactly: the elements are a
//! permutation of the input, ordered by the preorder, and elements that tie
//! keep their relative order (as std's stable `sort_by` does).

use vstd::prelude::*;

verus! {

/// A total preorder used as a sort key.
pub trait TotalPreorder: Sized {
    spec fn key_le(self, other: Self) -> bool;

    fn key_le_exec(&self, other: &Self) -> (r: bool)
        ensures
            r == self.key_le(*other),
    ;

    proof fn key_le_total(a: Self, b: Self)
        ensures
            a.key_le(b) || b.key_le(a),
    ;

    proof fn key_le_trans(a: Self, b: Self, c: Self)
        requires
            a.key_le(b),
            b.key_le(c),
        ensures
            a.key_le(c),
    ;
}

/// `p` is a permutation of `0..n`.
pub open spec fn is_perm(p: Seq<int>, n: int) -> bool {
    &&& p.len() == n
    &&& forall|i: int| 0 <= i < n ==> 0 <= #[trigger] p[i] < n
    &&& forall|i: int, j: int| 0 <= i < j < n ==> #[trigger] p[i] != #[trigger] p[j]
}

/// `new` is `old` rearranged by `p` (`new[i] == old[p[i]]`), ordered by the
/// preorder, with ties kept in their original order.
pub open spec fn stable_sorted_by<T: TotalPreorder>(old: Seq<T>, new: Seq<T>, p: Seq<int>) -> bool {
    &&& new.len() == old.len()
    &&& is_perm(p, old.len() as int)
    &&& forall|i: int| 0 <= i < new.len() ==> #[trigger] new[i] == old[p[i]]
    &&& forall|i: int, j: int|
        0 <= i < j < new.len() ==> (#[trigger] new[i]).key_le(#[trigger] new[j])
    &&& forall|i: int, j: int|
        0 <= i < j < new.len() && (#[trigger] new[j]).key_le(#[trigger] new[i]) ==> p[i] < p[j]
}

/// `new` is the stable sort of `old`.
pub open spec fn is_stable_sort_of<T: TotalPreorder>(old: Seq<T>, new: Seq<T>) -> bool {
    exists|p: Seq<int>| stable_sorted_by(old, new, p)
}

/// Sorts `v` stably by its preorder.
pub fn stable_sort<T: TotalPreorder>(v: &mut Vec<T>)
    ensures
        is_stable_sort_of(old(v)@, final(v)@),
        final(v)@.to_multiset() == old(v)@.to_multiset(),
{
    let ghost orig = v@;
    let n = v.len();
    let ghost mut perm: Seq<int> = Seq::new(n as nat, |k: int| k);
    if n == 0 {
        assert(stable_sorted_by(orig, v@, perm));
        return;
    }
    let mut i: usize = 1;
    while i < n
        invariant
            v.len() == n,
            orig.len() == n,
            1 <= i <= n,
            perm.len() == n,
            forall|k: int| i <= k < n ==> #[trigger] perm[k] == k,
            forall|k: int| 0 <= k < i ==> 0 <= #[trigger] perm[k] < i,
            forall|a: int, b: int| 0 <= a < b < i ==> #[trigger] perm[a] != #[trigger] perm[b],
            forall|k: int| 0 <= k < n ==> #[trigger] v@[k] == orig[perm[k]],
            v@.to_multiset() == orig.to_multiset(),
            forall|a: int, b: int| 0 <= a < b < i ==> (#[trigger] v@[a]).key_le(#[trigger] v@[b]),
            forall|a: int, b: int|
                0 <= a < b < i && (#[trigger] v@[b]).key_le(#[trigger] v@[a]) ==> perm[a] < perm[b],
        decreases n - i,
    {
        let ghost before = v@;
        let x = v.remove(i);
        assert(x == before[i as int]);
        assert(x == orig[i as int]);
        let mut j = i;
        while j > 0 && !v[j - 1].key_le_exec(&x)
            invariant
                0 <= j <= i,
                i < n,
                v.len() == n - 1,
                v@ == before.remove(i as int),
                forall|k: int| j <= k < i ==> !(#[trigger] v@[k]).key_le(x),
            decreases j,
        {
            j -= 1;
        }
        let ghost mid = v@;
        v.insert(j, x);
        let ghost newv = v@;
        let ghost old_perm = perm;
        proof {
            broadcast use vstd::seq_lib::group_to_multiset_ensures;
            broadcast use vstd::multiset::group_multiset_axioms;
            assert(before.to_multiset().count(x) > 0) by {
                assert(before.contains(x)) by {
                    assert(before[i as int] == x);
                }
            }
            assert(newv.to_multiset() =~= before.to_multiset());
            perm = old_perm.remove(i as int).insert(j as int, i as int);
            assert(perm.len() == n);
            // Positions after the inserted element shift by one.
            assert forall|k: int| 0 <= k < n implies #[trigger] newv[k] == orig[perm[k]] by {
                if k < j {
                    assert(newv[k] == before[k]);
                    assert(perm[k] == old_perm[k]);
                } else if k == j {
                    assert(newv[k] == x);
                    assert(perm[k] == i);
                } else if k <= i {
                    assert(newv[k] == before[k - 1]);
                    assert(perm[k] == old_perm[k - 1]);
                } else {
                    assert(newv[k] == before[k]);
                    assert(perm[k] == old_perm[k]);
                }
            }
            assert forall|k: int| i + 1 <= k < n implies #[trigger] perm[k] == k by {
                assert(perm[k] == old_perm[k]);
            }
            assert forall|k: int| 0 <= k < i + 1 implies 0 <= #[trigger] perm[k] < i + 1 by {
                if k < j {
                    assert(perm[k] == old_perm[k]);
                } else if k > j {
                    assert(perm[k] == old_perm[k - 1]);
                }
            }
            assert forall|a: int, b: int| 0 <= a < b < i + 1 implies #[trigger] perm[a]
                != #[trigger] perm[b] by {
                let pa = if a < j {
                    a
                } else if a == j {
                    -1
                } else {
                    a - 1
                };
                let pb = if b < j {
                    b
                } else if b == j {
                    -1
                } else {
                    b - 1
                };
                if pa >= 0 {
                    assert(perm[a] == old_perm[pa]);
                    assert(old_perm[pa] < i);
                }
                if pb >= 0 {
                    assert(perm[b] == old_perm[pb]);
                    assert(old_perm[pb] < i);
                }
                if pa >= 0 && pb >= 0 {
                    assert(pa < pb);
                }
            }
            // The prefix stays sorted.
            assert forall|a: int, b: int| 0 <= a < b < i + 1 implies (#[trigger] newv[a]).key_le(
                #[trigger] newv[b],
            ) by {
                if b == j {
                    // newv[a] == before[a] precedes x.
                    assert(newv[a] == before[a]);
                    assert(j > 0);
                    assert(mid[j - 1] == before[j - 1]);
                    assert(mid[j - 1].key_le(x));
                    if a < j - 1 {
                        assert(before[a].key_le(before[j - 1]));
                        T::key_le_trans(before[a], before[j - 1], x);
                    }
                } else if a == j {
                    assert(newv[b] == before[b - 1]);
                    assert(mid[b - 1] == before[b - 1]);
                    assert(!mid[b - 1].key_le(x));
                    T::key_le_total(x, before[b - 1]);
                } else {
                    let pa = if a < j {
                        a
                    } else {
                        a - 1
                    };
                    let pb = if b < j {
                        b
                    } else {
                        b - 1
                    };
                    assert(newv[a] == before[pa]);
                    assert(newv[b] == before[pb]);
                    assert(pa < pb);
                }
            }
            // Ties keep their original order.
            assert forall|a: int, b: int|
                0 <= a < b < i + 1 && (#[trigger] newv[b]).key_le(
                    #[trigger] newv[a],
                ) implies perm[a] < perm[b] by {
                if b == j {
                    assert(perm[a] == old_perm[a]);
                    assert(old_perm[a] < i);
                    assert(perm[b] == i);
                } else if a == j {
                    assert(newv[b] == before[b - 1]);
                    assert(mid[b - 1] == before[b - 1]);
                    assert(!mid[b - 1].key_le(x));
                } else {
                    let pa = if a < j {
                        a
                    } else {
                        a - 1
                    };
                    let pb = if b < j {
                        b
                    } else {
                        b - 1
                    };
                    assert(newv[a] == before[pa]);
                    assert(newv[b] == before[pb]);
                    assert(perm[a] == old_perm[pa]);
                    assert(perm[b] == old_perm[pb]);
                    assert(pa < pb);
                }
            }
        }
        i += 1;
    }
    assert(stable_sorted_by(orig, v@, perm));
}

} // verus!
