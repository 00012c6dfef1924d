//! Sorted, duplicate-free collections of offsets and ids.
use vstd::prelude::*;

verus! {

/// A sequence is strictly increasing: sorted with no repeated element.
pub open spec fn strictly_sorted(s: Seq<u32>) -> bool {
    forall|i: int, j: int| 0 <= i < j < s.len() ==> s[i] < s[j]
}

/// Inserts `x` into a strictly increasing vector, keeping it strictly increasing.
/// Afterwards it holds exactly the old elements and `x`.
pub fn insert_sorted_unique(v: &mut Vec<u32>, x: u32)
    requires
        strictly_sorted(old(v)@),
    ensures
        strictly_sorted(final(v)@),
        forall|y: u32| #[trigger] final(v)@.contains(y) <==> (old(v)@.contains(y) || y == x),
{
    let mut i: usize = 0;
    while i < v.len() && v[i] < x
        invariant
            i <= v.len(),
            v@ == old(v)@,
            strictly_sorted(v@),
            forall|k: int| 0 <= k < i ==> v@[k] < x,
        decreases v.len() - i,
    {
        i = i + 1;
    }
    if i < v.len() && v[i] == x {
        assert(v@.contains(x)) by { assert(v@[i as int] == x); }
        return;
    }
    let ghost old_v = v@;
    assert(old_v == old(v)@);
    assert(forall|k: int| i <= k < old_v.len() ==> old_v[k] > x) by {
        if i < old_v.len() {
            assert(old_v[i as int] > x);
        }
    }
    v.insert(i, x);
    assert(strictly_sorted(v@)) by {
        assert forall|a: int, b: int| 0 <= a < b < v@.len() implies v@[a] < v@[b] by {
            if b < i {
                assert(v@[a] == old_v[a] && v@[b] == old_v[b]);
            } else if b == i {
                assert(v@[a] == old_v[a]);
            } else if a < i {
                assert(v@[a] == old_v[a] && v@[b] == old_v[b - 1]);
            } else if a == i {
                assert(v@[b] == old_v[b - 1]);
            } else {
                assert(v@[a] == old_v[a - 1] && v@[b] == old_v[b - 1]);
            }
        }
    }
    assert forall|y: u32| v@.contains(y) <==> (old_v.contains(y) || y == x) by {
        if v@.contains(y) {
            let k = choose|k: int| 0 <= k < v@.len() && v@[k] == y;
            if k < i { assert(old_v[k] == y); }
            else if k > i { assert(old_v[k - 1] == y); }
        }
        if old_v.contains(y) {
            let k = choose|k: int| 0 <= k < old_v.len() && old_v[k] == y;
            if k < i { assert(v@[k] == y); } else { assert(v@[k + 1] == y); }
        }
        if y == x { assert(v@[i as int] == x); }
    }
    assert(forall|y: u32| v@.contains(y) <==> (old(v)@.contains(y) || y == x));
}

} // verus!

verus! {

/// Two strictly increasing sequences with the same elements are equal.
pub proof fn lemma_sorted_unique_eq(a: Seq<u32>, b: Seq<u32>)
    requires
        strictly_sorted(a),
        strictly_sorted(b),
        forall|x: u32| a.contains(x) <==> b.contains(x),
    ensures
        a == b,
    decreases a.len() + b.len(),
{
    if a.len() == 0 {
        if b.len() > 0 {
            assert(b.contains(b[0]));
        }
        assert(a =~= b);
    } else if b.len() == 0 {
        assert(a.contains(a[0]));
    } else {
        // The smallest elements agree.
        assert(a.contains(b[0]));
        assert(b.contains(a[0]));
        let ia = choose|i: int| 0 <= i < a.len() && a[i] == b[0];
        let ib = choose|i: int| 0 <= i < b.len() && b[i] == a[0];
        if ia > 0 { assert(a[0] < a[ia]); }
        if ib > 0 { assert(b[0] < b[ib]); }
        assert(a[0] == b[0]);
        let a1 = a.drop_first();
        let b1 = b.drop_first();
        assert forall|x: u32| a1.contains(x) <==> b1.contains(x) by {
            if a1.contains(x) {
                let i = choose|i: int| 0 <= i < a1.len() && a1[i] == x;
                assert(a[i + 1] == x);
                assert(a[0] < x);
                assert(b.contains(x));
                let j = choose|j: int| 0 <= j < b.len() && b[j] == x;
                assert(j != 0);
                assert(b1[j - 1] == x);
            }
            if b1.contains(x) {
                let i = choose|i: int| 0 <= i < b1.len() && b1[i] == x;
                assert(b[i + 1] == x);
                assert(b[0] < x);
                assert(a.contains(x));
                let j = choose|j: int| 0 <= j < a.len() && a[j] == x;
                assert(j != 0);
                assert(a1[j - 1] == x);
            }
        }
        lemma_sorted_unique_eq(a1, b1);
        assert(a =~= seq![a[0]] + a1);
        assert(b =~= seq![b[0]] + b1);
    }
}

/// Adds every element of `src` to the strictly increasing `dst`.
pub fn insert_all_sorted_unique(dst: &mut Vec<u32>, src: &Vec<u32>)
    requires
        strictly_sorted(old(dst)@),
    ensures
        strictly_sorted(final(dst)@),
        forall|y: u32| #[trigger] final(dst)@.contains(y) <==> (old(dst)@.contains(y) || src@.contains(y)),
{
    let mut i: usize = 0;
    while i < src.len()
        invariant
            i <= src@.len(),
            strictly_sorted(dst@),
            forall|y: u32| dst@.contains(y) <==> (old(dst)@.contains(y) || src@.take(i as int).contains(y)),
        decreases src@.len() - i,
    {
        let ghost before = dst@;
        insert_sorted_unique(dst, src[i]);
        assert(src@.take(i + 1) =~= src@.take(i as int).push(src@[i as int]));
        assert forall|y: u32| src@.take(i + 1).contains(y) <==> (src@.take(i as int).contains(y) || y == src@[i as int]) by {
            let t = src@.take(i as int);
            let t1 = src@.take(i + 1);
            if t1.contains(y) {
                let k = choose|k: int| 0 <= k < t1.len() && t1[k] == y;
                if k < i { assert(t[k] == y); }
            }
            if t.contains(y) {
                let k = choose|k: int| 0 <= k < t.len() && t[k] == y;
                assert(t1[k] == y);
            }
            if y == src@[i as int] {
                assert(t1[i as int] == y);
            }
        }
        i = i + 1;
    }
    assert(src@.take(i as int) =~= src@);
}

/// The elements of `v`, increasing and without repeats.
pub fn sorted_unique(v: &Vec<u32>) -> (r: Vec<u32>)
    ensures
        strictly_sorted(r@),
        forall|y: u32| r@.contains(y) <==> v@.contains(y),
{
    let mut r: Vec<u32> = Vec::new();
    insert_all_sorted_unique(&mut r, v);
    r
}

/// A sequence is increasing, repeats allowed.
pub open spec fn sorted_usize(s: Seq<usize>) -> bool {
    forall|i: int, j: int| 0 <= i < j < s.len() ==> s[i] <= s[j]
}

/// A sequence is strictly increasing.
pub open spec fn strictly_sorted_usize(s: Seq<usize>) -> bool {
    forall|i: int, j: int| 0 <= i < j < s.len() ==> s[i] < s[j]
}

/// Inserts `x` into an increasing vector where it keeps the vector increasing.
pub fn insert_sorted_usize(v: &mut Vec<usize>, x: usize)
    requires
        sorted_usize(old(v)@),
    ensures
        sorted_usize(final(v)@),
        final(v)@.to_multiset() == old(v)@.to_multiset().insert(x),
{
    let mut i: usize = 0;
    while i < v.len() && v[i] <= x
        invariant
            i <= v.len(),
            v@ == old(v)@,
            sorted_usize(v@),
            forall|k: int| 0 <= k < i ==> v@[k] <= x,
        decreases v.len() - i,
    {
        i = i + 1;
    }
    let ghost old_v = v@;
    assert(forall|k: int| i <= k < old_v.len() ==> old_v[k] > x) by {
        if i < old_v.len() {
            assert(old_v[i as int] > x);
        }
    }
    v.insert(i, x);
    proof {
        vstd::seq_lib::to_multiset_insert(old_v, i as int, x);
    }
    assert(sorted_usize(v@)) by {
        assert forall|a: int, b: int| 0 <= a < b < v@.len() implies v@[a] <= v@[b] by {
            if b < i {
                assert(v@[a] == old_v[a] && v@[b] == old_v[b]);
            } else if b == i {
                assert(v@[a] == old_v[a]);
            } else if a < i {
                assert(v@[a] == old_v[a] && v@[b] == old_v[b - 1]);
            } else if a == i {
                assert(v@[b] == old_v[b - 1]);
            } else {
                assert(v@[a] == old_v[a - 1] && v@[b] == old_v[b - 1]);
            }
        }
    }
}

/// Sorts a vector of ids in increasing order.
pub fn sort_usize(v: &mut Vec<usize>)
    ensures
        sorted_usize(final(v)@),
        final(v)@.to_multiset() == old(v)@.to_multiset(),
{
    let mut r: Vec<usize> = Vec::new();
    let mut i: usize = 0;
    assert(old(v)@.take(0) =~= Seq::<usize>::empty());
    proof {
        broadcast use vstd::multiset::group_multiset_axioms;
        assert(Seq::<usize>::empty().to_multiset() =~= r@.to_multiset());
    }
    while i < v.len()
        invariant
            v@ == old(v)@,
            i <= v@.len(),
            sorted_usize(r@),
            r@.to_multiset() == v@.take(i as int).to_multiset(),
        decreases v@.len() - i,
    {
        insert_sorted_usize(&mut r, v[i]);
        assert(v@.take(i + 1) =~= v@.take(i as int).push(v@[i as int]));
        proof {
            vstd::seq_lib::to_multiset_build(v@.take(i as int), v@[i as int]);
        }
        i = i + 1;
    }
    assert(v@.take(i as int) =~= v@);
    *v = r;
}

} // verus!

verus! {

/// Inserts `x` into a strictly increasing vector, keeping it strictly increasing.
/// Afterwards it holds exactly the old elements and `x`.
pub fn insert_sorted_unique_usize(v: &mut Vec<usize>, x: usize)
    requires
        strictly_sorted_usize(old(v)@),
    ensures
        strictly_sorted_usize(final(v)@),
        forall|y: usize| #[trigger] final(v)@.contains(y) <==> (old(v)@.contains(y) || y == x),
{
    let mut i: usize = 0;
    while i < v.len() && v[i] < x
        invariant
            i <= v.len(),
            v@ == old(v)@,
            strictly_sorted_usize(v@),
            forall|k: int| 0 <= k < i ==> v@[k] < x,
        decreases v.len() - i,
    {
        i = i + 1;
    }
    if i < v.len() && v[i] == x {
        assert(v@.contains(x)) by { assert(v@[i as int] == x); }
        return;
    }
    let ghost old_v = v@;
    assert(old_v == old(v)@);
    assert(forall|k: int| i <= k < old_v.len() ==> old_v[k] > x) by {
        if i < old_v.len() {
            assert(old_v[i as int] > x);
        }
    }
    v.insert(i, x);
    assert(strictly_sorted_usize(v@)) by {
        assert forall|a: int, b: int| 0 <= a < b < v@.len() implies v@[a] < v@[b] by {
            if b < i {
                assert(v@[a] == old_v[a] && v@[b] == old_v[b]);
            } else if b == i {
                assert(v@[a] == old_v[a]);
            } else if a < i {
                assert(v@[a] == old_v[a] && v@[b] == old_v[b - 1]);
            } else if a == i {
                assert(v@[b] == old_v[b - 1]);
            } else {
                assert(v@[a] == old_v[a - 1] && v@[b] == old_v[b - 1]);
            }
        }
    }
    assert forall|y: usize| v@.contains(y) <==> (old_v.contains(y) || y == x) by {
        if v@.contains(y) {
            let k = choose|k: int| 0 <= k < v@.len() && v@[k] == y;
            if k < i { assert(old_v[k] == y); }
            else if k > i { assert(old_v[k - 1] == y); }
        }
        if old_v.contains(y) {
            let k = choose|k: int| 0 <= k < old_v.len() && old_v[k] == y;
            if k < i { assert(v@[k] == y); } else { assert(v@[k + 1] == y); }
        }
        if y == x { assert(v@[i as int] == x); }
    }
    assert(forall|y: usize| v@.contains(y) <==> (old(v)@.contains(y) || y == x));
}

} // verus!
