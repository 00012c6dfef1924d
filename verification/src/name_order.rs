//! The order of names: by their UTF-8 bytes, as Rust orders strings; and sorted
//! sets of names kept in that order.
use vstd::prelude::*;

verus! {

/// `a` comes before `b` in the order of byte strings: at the first byte where
/// they differ, or as a proper prefix.
pub open spec fn bytes_lt(a: Seq<u8>, b: Seq<u8>) -> bool
    decreases a.len(),
{
    if a.len() == 0 {
        b.len() > 0
    } else if b.len() == 0 {
        false
    } else if a[0] != b[0] {
        a[0] < b[0]
    } else {
        bytes_lt(a.drop_first(), b.drop_first())
    }
}

/// The bytes of a name.
pub open spec fn name_bytes(s: Seq<char>) -> Seq<u8> {
    vstd::utf8::encode_utf8(s)
}

/// `a` comes before `b` in the order of names.
pub open spec fn name_lt(a: Seq<char>, b: Seq<char>) -> bool {
    bytes_lt(name_bytes(a), name_bytes(b))
}

pub proof fn lemma_bytes_lt_irreflexive(a: Seq<u8>)
    ensures
        !bytes_lt(a, a),
    decreases a.len(),
{
    if a.len() > 0 {
        lemma_bytes_lt_irreflexive(a.drop_first());
    }
}

pub proof fn lemma_bytes_lt_transitive(a: Seq<u8>, b: Seq<u8>, c: Seq<u8>)
    requires
        bytes_lt(a, b),
        bytes_lt(b, c),
    ensures
        bytes_lt(a, c),
    decreases a.len(),
{
    if a.len() > 0 && b.len() > 0 && c.len() > 0 && a[0] == b[0] && b[0] == c[0] {
        lemma_bytes_lt_transitive(a.drop_first(), b.drop_first(), c.drop_first());
    }
}

pub proof fn lemma_bytes_lt_total(a: Seq<u8>, b: Seq<u8>)
    requires
        a != b,
    ensures
        bytes_lt(a, b) || bytes_lt(b, a),
    decreases a.len(),
{
    if a.len() == 0 {
        assert(b.len() > 0) by {
            if b.len() == 0 {
                assert(a =~= b);
            }
        }
    } else if b.len() > 0 && a[0] == b[0] {
        if a.drop_first() == b.drop_first() {
            assert(a =~= seq![a[0]] + a.drop_first());
            assert(b =~= seq![b[0]] + b.drop_first());
        }
        lemma_bytes_lt_total(a.drop_first(), b.drop_first());
    }
}

/// Different names have different bytes.
pub proof fn lemma_name_bytes_injective(a: Seq<char>, b: Seq<char>)
    ensures
        name_bytes(a) == name_bytes(b) ==> a == b,
{
    vstd::utf8::encode_utf8_decode_utf8(a);
    vstd::utf8::encode_utf8_decode_utf8(b);
}

pub open spec fn names_strictly_sorted(s: Seq<Seq<char>>) -> bool {
    forall|i: int, j: int| 0 <= i < j < s.len() ==> name_lt(s[i], s[j])
}

/// The views of the names, in order.
pub open spec fn names_view(s: Seq<String>) -> Seq<Seq<char>> {
    s.map_values(|x: String| x@)
}

/// Whether `a` comes before `b`.
pub fn name_less(a: &String, b: &String) -> (r: bool)
    ensures
        r == name_lt(a@, b@),
{
    let x = a.as_str().as_bytes();
    let y = b.as_str().as_bytes();
    let ghost xs = x@;
    let ghost ys = y@;
    assert(xs == name_bytes(a@));
    assert(ys == name_bytes(b@));
    let mut i: usize = 0;
    assert(xs.skip(0) =~= xs);
    assert(ys.skip(0) =~= ys);
    while i < x.len() && i < y.len() && x[i] == y[i]
        invariant
            i <= xs.len(),
            i <= ys.len(),
            xs == x@,
            ys == y@,
            bytes_lt(xs, ys) == bytes_lt(xs.skip(i as int), ys.skip(i as int)),
        decreases xs.len() - i,
    {
        assert(xs.skip(i as int).drop_first() =~= xs.skip(i + 1));
        assert(ys.skip(i as int).drop_first() =~= ys.skip(i + 1));
        i = i + 1;
    }
    let ghost rx = xs.skip(i as int);
    let ghost ry = ys.skip(i as int);
    if i == x.len() {
        assert(rx.len() == 0);
        i < y.len()
    } else if i == y.len() {
        assert(ry.len() == 0);
        false
    } else {
        assert(rx[0] == x[i as int] && ry[0] == y[i as int]);
        x[i] < y[i]
    }
}

/// Inserts `x` into a strictly increasing vector of names, keeping it strictly
/// increasing. Afterwards it holds exactly the old names and `x`.
pub fn insert_name_sorted_unique(v: &mut Vec<String>, x: String)
    requires
        names_strictly_sorted(names_view(old(v)@)),
    ensures
        names_strictly_sorted(names_view(final(v)@)),
        forall|y: Seq<char>| #[trigger] names_view(final(v)@).contains(y) <==> (names_view(old(v)@).contains(y) || y == x@),
{
    let ghost old_v = names_view(v@);
    let mut i: usize = 0;
    while i < v.len() && name_less(&v[i], &x)
        invariant
            i <= v@.len(),
            names_view(v@) == old_v,
            names_strictly_sorted(old_v),
            forall|k: int| 0 <= k < i ==> name_lt(old_v[k], x@),
        decreases v@.len() - i,
    {
        assert(old_v[i as int] == v@[i as int]@);
        i = i + 1;
    }
    if i < v.len() && v[i] == x {
        assert(old_v[i as int] == x@);
        assert(old_v.contains(x@));
        return;
    }
    proof {
        if i < old_v.len() {
            assert(old_v[i as int] == v@[i as int]@);
            assert(!name_lt(old_v[i as int], x@));
            assert(old_v[i as int] != x@);
            assert(name_bytes(old_v[i as int]) != name_bytes(x@)) by {
                lemma_name_bytes_injective(old_v[i as int], x@);
            }
            lemma_bytes_lt_total(name_bytes(old_v[i as int]), name_bytes(x@));
        }
        assert forall|k: int| i <= k < old_v.len() implies name_lt(x@, old_v[k]) by {
            if k > i {
                assert(name_lt(old_v[i as int], old_v[k]));
                assert(name_lt(x@, old_v[i as int]));
                lemma_bytes_lt_transitive(name_bytes(x@), name_bytes(old_v[i as int]), name_bytes(old_v[k]));
            }
        }
    }
    let ghost xv = x@;
    v.insert(i, x);
    let ghost nv = names_view(v@);
    assert(nv =~= old_v.insert(i as int, xv));
    assert(names_strictly_sorted(nv)) by {
        assert forall|a: int, b: int| 0 <= a < b < nv.len() implies name_lt(nv[a], nv[b]) by {
            if b < i {
            } else if b == i {
            } else if a < i {
                assert(nv[b] == old_v[b - 1]);
                assert(nv[a] == old_v[a]);
                assert(name_lt(old_v[a], xv));
                assert(name_lt(xv, old_v[b - 1]));
                lemma_bytes_lt_transitive(name_bytes(old_v[a]), name_bytes(xv), name_bytes(old_v[b - 1]));
            } else if a == i {
                assert(nv[b] == old_v[b - 1]);
            } else {
                assert(nv[a] == old_v[a - 1] && nv[b] == old_v[b - 1]);
            }
        }
    }
    assert forall|y: Seq<char>| nv.contains(y) <==> (old_v.contains(y) || y == xv) by {
        if nv.contains(y) {
            let k = choose|k: int| 0 <= k < nv.len() && nv[k] == y;
            if k < i { assert(old_v[k] == y); }
            else if k > i { assert(old_v[k - 1] == y); }
        }
        if old_v.contains(y) {
            let k = choose|k: int| 0 <= k < old_v.len() && old_v[k] == y;
            if k < i { assert(nv[k] == y); } else { assert(nv[k + 1] == y); }
        }
        if y == xv { assert(nv[i as int] == xv); }
    }
}

} // verus!
