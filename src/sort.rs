//! In-place quicksort on integer keys.
use vstd::prelude::*;

verus! {

/// `s` is in ascending order between `lo` (inclusive) and `hi` (exclusive).
pub open spec fn sorted_between(s: Seq<i64>, lo: int, hi: int) -> bool {
    forall|a: int, b: int| lo <= a <= b < hi ==> s[a] <= s[b]
}

/// `s` is in ascending order.
pub open spec fn sorted(s: Seq<i64>) -> bool {
    sorted_between(s, 0, s.len() as int)
}

/// Each value of `t` between `lo` and `hi` is a value that `s` held there.
pub open spec fn drawn_from(t: Seq<i64>, s: Seq<i64>, lo: int, hi: int) -> bool {
    forall|k: int|
        #![trigger t[k]]
        lo <= k < hi ==> exists|m: int| #![trigger s[m]] lo <= m < hi && t[k] == s[m]
}

/// `t` equals `s` outside `lo..hi`.
pub open spec fn same_outside(t: Seq<i64>, s: Seq<i64>, lo: int, hi: int) -> bool {
    &&& t.len() == s.len()
    &&& forall|k: int| 0 <= k < s.len() && !(lo <= k < hi) ==> t[k] == s[k]
}

proof fn lemma_witness(t: Seq<i64>, s: Seq<i64>, lo: int, hi: int, k: int, m: int)
    requires
        lo <= m < hi,
        t[k] == s[m],
    ensures
        exists|m: int| lo <= m < hi && t[k] == s[m],
{
}

fn swap(v: &mut Vec<i64>, i: usize, j: usize)
    requires
        i < old(v).len(),
        j < old(v).len(),
    ensures
        final(v)@ == old(v)@.update(i as int, old(v)@[j as int]).update(j as int, old(v)@[i as int]),
        final(v)@.to_multiset() == old(v)@.to_multiset(),
{
    broadcast use vstd::seq_lib::group_to_multiset_ensures;
    broadcast use vstd::multiset::group_multiset_axioms;

    let a = v[i];
    let b = v[j];
    let ghost s = v@;
    v.set(i, b);
    let ghost s1 = v@;
    v.set(j, a);
    proof {
        assert(s1.to_multiset() == s.to_multiset().insert(b).remove(a));
        assert(v@.to_multiset() == s1.to_multiset().insert(a).remove(s1[j as int]));
        assert(s.to_multiset().count(a) > 0);
        assert(s1.to_multiset().count(b) > 0);
        assert(v@.to_multiset() =~= s.to_multiset());
    }
}

/// Sorts `v` between `lo` and `hi`, leaving the rest as it was.
fn quicksort_range(v: &mut Vec<i64>, lo: usize, hi: usize)
    requires
        lo <= hi <= old(v).len(),
    ensures
        same_outside(final(v)@, old(v)@, lo as int, hi as int),
        final(v)@.to_multiset() == old(v)@.to_multiset(),
        drawn_from(final(v)@, old(v)@, lo as int, hi as int),
        sorted_between(final(v)@, lo as int, hi as int),
    decreases hi - lo,
{
    let ghost s0 = v@;
    if hi - lo <= 1 {
        proof {
            if lo < hi {
                lemma_witness(v@, s0, lo as int, hi as int, lo as int, lo as int);
            }
        }
        return;
    }
    let pivot_index = lo + (hi - lo) / 2;
    swap(v, lo, pivot_index);
    let ghost s1 = v@;
    assert(drawn_from(s1, s0, lo as int, hi as int)) by {
        assert forall|k: int| #![trigger s1[k]] lo <= k < hi implies exists|m: int|
            lo <= m < hi && s1[k] == s0[m] by {
            if k == lo {
                assert(s1[k] == s0[pivot_index as int]);
            } else if k == pivot_index {
                assert(s1[k] == s0[lo as int]);
            } else {
                assert(s1[k] == s0[k]);
            }
        }
    }
    let pivot = v[lo];
    let mut i: usize = lo + 1;
    let mut j: usize = lo + 1;
    while j < hi
        invariant
            lo < i <= j <= hi <= v.len(),
            v@[lo as int] == pivot,
            same_outside(v@, s0, lo as int, hi as int),
            v@.to_multiset() == s0.to_multiset(),
            drawn_from(v@, s0, lo as int, hi as int),
            forall|k: int| lo < k < i ==> v@[k] < pivot,
            forall|k: int| i <= k < j ==> v@[k] >= pivot,
        decreases hi - j,
    {
        if v[j] < pivot {
            let ghost t = v@;
            swap(v, i, j);
            assert(drawn_from(v@, s0, lo as int, hi as int)) by {
                assert forall|k: int| #![trigger v@[k]] lo <= k < hi implies exists|m: int|
                    lo <= m < hi && v@[k] == s0[m] by {
                    if k == i {
                        assert(v@[k] == t[j as int]);
                    } else if k == j {
                        assert(v@[k] == t[i as int]);
                    } else {
                        assert(v@[k] == t[k]);
                    }
                }
            }
            i = i + 1;
        }
        j = j + 1;
    }
    let p = i - 1;
    let ghost t = v@;
    swap(v, lo, p);
    assert(drawn_from(v@, s0, lo as int, hi as int)) by {
        assert forall|k: int| #![trigger v@[k]] lo <= k < hi implies exists|m: int|
            lo <= m < hi && v@[k] == s0[m] by {
            if k == lo {
                assert(v@[k] == t[p as int]);
            } else if k == p {
                assert(v@[k] == t[lo as int]);
            } else {
                assert(v@[k] == t[k]);
            }
        }
    }
    assert(v@[p as int] == pivot);
    assert(forall|k: int| lo <= k < p ==> v@[k] < pivot);
    assert(forall|k: int| p < k < hi ==> v@[k] >= pivot);
    let ghost s2 = v@;
    quicksort_range(v, lo, p);
    let ghost s3 = v@;
    assert(forall|k: int| lo <= k < p ==> s3[k] < pivot) by {
        assert forall|k: int| lo <= k < p implies s3[k] < pivot by {
            let m = choose|m: int| lo <= m < p && s3[k] == s2[m];
        }
    }
    quicksort_range(v, p + 1, hi);
    let ghost s4 = v@;
    assert(forall|k: int| p < k < hi ==> s4[k] >= pivot) by {
        assert forall|k: int| p < k < hi implies s4[k] >= pivot by {
            let m = choose|m: int| p + 1 <= m < hi && s4[k] == s3[m];
        }
    }
    assert(drawn_from(s4, s0, lo as int, hi as int)) by {
        assert forall|k: int| #![trigger s4[k]] lo <= k < hi implies exists|m: int|
            lo <= m < hi && s4[k] == s0[m] by {
            let m2: int = if k < p {
                choose|m: int| lo <= m < p && s3[k] == s2[m]
            } else if k == p {
                k
            } else {
                choose|m: int| p + 1 <= m < hi && s4[k] == s3[m]
            };
            assert(s4[k] == s2[m2]);
            assert(lo <= m2 < hi);
        }
    }
}

/// Sorts `v` in ascending order.
pub fn quicksort(v: &mut Vec<i64>)
    ensures
        sorted(final(v)@),
        final(v)@.to_multiset() == old(v)@.to_multiset(),
{
    let n = v.len();
    quicksort_range(v, 0, n);
}

/// Two ascending sequences that hold the same values, counted with
/// multiplicity, are equal: sorting has exactly one outcome.
pub proof fn lemma_sorted_unique(a: Seq<i64>, b: Seq<i64>)
    requires
        sorted(a),
        sorted(b),
        a.to_multiset() == b.to_multiset(),
    ensures
        a == b,
    decreases a.len(),
{
    broadcast use vstd::seq_lib::group_to_multiset_ensures;
    broadcast use vstd::multiset::group_multiset_axioms;

    vstd::seq_lib::to_multiset_len(a);
    vstd::seq_lib::to_multiset_len(b);
    assert(a.len() == b.len());
    if a.len() == 0 {
        assert(a =~= b);
    } else {
        let n = a.len() as int;
        let x = a[n - 1];
        let y = b[n - 1];
        assert(b.contains(y)) by {
            assert(b[n - 1] == y);
        }
        vstd::seq_lib::to_multiset_contains(a, y);
        vstd::seq_lib::to_multiset_contains(b, y);
        assert(a.contains(y));
        let i = choose|i: int| 0 <= i < n && a[i] == y;
        assert(a.contains(x)) by {
            assert(a[n - 1] == x);
        }
        vstd::seq_lib::to_multiset_contains(a, x);
        vstd::seq_lib::to_multiset_contains(b, x);
        assert(b.contains(x));
        let j = choose|j: int| 0 <= j < n && b[j] == x;
        assert(x == y);
        let a1 = a.drop_last();
        let b1 = b.drop_last();
        assert(a =~= a1.push(x));
        assert(b =~= b1.push(x));
        assert(a1.to_multiset() =~= b1.to_multiset()) by {
            assert(a1.push(x).to_multiset() == a1.to_multiset().insert(x));
            assert(b1.push(x).to_multiset() == b1.to_multiset().insert(x));
            assert forall|v: i64| a1.to_multiset().count(v) == b1.to_multiset().count(v) by {
                assert(a1.to_multiset().insert(x).count(v) == b1.to_multiset().insert(x).count(v));
            }
        }
        lemma_sorted_unique(a1, b1);
    }
}

} // verus!
