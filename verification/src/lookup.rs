//! Lookups of records by an integer key, as the query indexes perform them.
use vstd::prelude::*;

verus! {

/// A record that is found again by one integer key (a syntax offset or an id).
pub trait Keyed {
    spec fn key(&self) -> u32;

    fn get_key(&self) -> (k: u32)
        ensures
            k == self.key(),
    ;
}

/// Index of the last record whose key is `k`, or -1. A map built from the records
/// in order keeps this one for `k`: later entries replace earlier ones.
pub open spec fn last_index_with_key<T: Keyed>(s: Seq<T>, k: u32) -> int
    decreases s.len(),
{
    if s.len() == 0 {
        -1
    } else if s.last().key() == k {
        s.len() - 1
    } else {
        last_index_with_key(s.drop_last(), k)
    }
}

/// Index of the first record whose key is `k`, or -1.
pub open spec fn first_index_with_key<T: Keyed>(s: Seq<T>, k: u32) -> int
    decreases s.len(),
{
    if s.len() == 0 {
        -1
    } else if s[0].key() == k {
        0
    } else {
        let r = first_index_with_key(s.drop_first(), k);
        if r == -1 { -1 } else { r + 1 }
    }
}

/// The last record whose key is `k`.
pub open spec fn last_with_key<T: Keyed>(s: Seq<T>, k: u32) -> Option<T> {
    let i = last_index_with_key(s, k);
    if i >= 0 { Some(s[i]) } else { None }
}

/// The first record whose key is `k`.
pub open spec fn first_with_key<T: Keyed>(s: Seq<T>, k: u32) -> Option<T> {
    let i = first_index_with_key(s, k);
    if i >= 0 { Some(s[i]) } else { None }
}

pub proof fn lemma_last_index_with_key<T: Keyed>(s: Seq<T>, k: u32)
    ensures
        -1 <= last_index_with_key(s, k) < s.len(),
        last_index_with_key(s, k) >= 0 ==> s[last_index_with_key(s, k)].key() == k,
        forall|j: int| last_index_with_key(s, k) < j < s.len() ==> s[j].key() != k,
    decreases s.len(),
{
    if s.len() > 0 && s.last().key() != k {
        lemma_last_index_with_key(s.drop_last(), k);
        assert forall|j: int| last_index_with_key(s, k) < j < s.len() implies s[j].key() != k by {
            if j < s.len() - 1 {
                assert(s[j] == s.drop_last()[j]);
            }
        }
    }
}

pub proof fn lemma_first_index_with_key<T: Keyed>(s: Seq<T>, k: u32)
    ensures
        -1 <= first_index_with_key(s, k) < s.len(),
        first_index_with_key(s, k) >= 0 ==> s[first_index_with_key(s, k)].key() == k,
        forall|j: int|
            0 <= j < s.len() && (first_index_with_key(s, k) == -1 || j < first_index_with_key(s, k))
                ==> s[j].key() != k,
    decreases s.len(),
{
    if s.len() > 0 && s[0].key() != k {
        lemma_first_index_with_key(s.drop_first(), k);
        assert forall|j: int|
            0 <= j < s.len() && (first_index_with_key(s, k) == -1 || j < first_index_with_key(s, k))
                implies s[j].key() != k by {
            if j > 0 {
                assert(s[j] == s.drop_first()[j - 1]);
            }
        }
    }
}

/// Finds the index of the last record with key `k`.
pub fn find_last_index<T: Keyed>(v: &Vec<T>, k: u32) -> (r: Option<usize>)
    ensures
        match r {
            Some(i) => i as int == last_index_with_key(v@, k) && i < v@.len(),
            None => last_index_with_key(v@, k) == -1,
        },
{
    let mut i: usize = v.len();
    assert(v@.take(i as int) =~= v@);
    while i > 0
        invariant
            i <= v@.len(),
            last_index_with_key(v@, k) == last_index_with_key(v@.take(i as int), k),
        decreases i,
    {
        let ghost pre = v@.take(i as int);
        assert(pre.drop_last() =~= v@.take(i - 1));
        if v[i - 1].get_key() == k {
            return Some(i - 1);
        }
        i = i - 1;
    }
    None
}

/// Finds the index of the first record with key `k`.
pub fn find_first_index<T: Keyed>(v: &Vec<T>, k: u32) -> (r: Option<usize>)
    ensures
        match r {
            Some(i) => i as int == first_index_with_key(v@, k) && i < v@.len(),
            None => first_index_with_key(v@, k) == -1,
        },
{
    proof { lemma_first_index_with_key(v@, k); }
    let mut i: usize = 0;
    while i < v.len()
        invariant
            i <= v@.len(),
            forall|j: int| 0 <= j < i ==> v@[j].key() != k,
            -1 <= first_index_with_key(v@, k) < v@.len(),
            first_index_with_key(v@, k) >= 0 ==> v@[first_index_with_key(v@, k)].key() == k,
            forall|j: int|
                0 <= j < v@.len() && (first_index_with_key(v@, k) == -1 || j < first_index_with_key(v@, k))
                    ==> v@[j].key() != k,
        decreases v@.len() - i,
    {
        if v[i].get_key() == k {
            return Some(i);
        }
        i = i + 1;
    }
    None
}

/// A record that is found again by its name.
pub trait Named {
    spec fn name_view(&self) -> Seq<char>;

    fn name_string(&self) -> (r: &String)
        ensures
            r@ == self.name_view(),
    ;
}

/// Index of the last record named `name`, or -1.
pub open spec fn last_index_named<T: Named>(s: Seq<T>, name: Seq<char>) -> int
    decreases s.len(),
{
    if s.len() == 0 {
        -1
    } else if s.last().name_view() == name {
        s.len() - 1
    } else {
        last_index_named(s.drop_last(), name)
    }
}

/// Index of the first record named `name`, or -1.
pub open spec fn first_index_named<T: Named>(s: Seq<T>, name: Seq<char>) -> int
    decreases s.len(),
{
    if s.len() == 0 {
        -1
    } else if s[0].name_view() == name {
        0
    } else {
        let r = first_index_named(s.drop_first(), name);
        if r == -1 { -1 } else { r + 1 }
    }
}

pub proof fn lemma_last_index_named<T: Named>(s: Seq<T>, name: Seq<char>)
    ensures
        -1 <= last_index_named(s, name) < s.len(),
        last_index_named(s, name) >= 0 ==> s[last_index_named(s, name)].name_view() == name,
        forall|j: int| last_index_named(s, name) < j < s.len() ==> s[j].name_view() != name,
    decreases s.len(),
{
    if s.len() > 0 && s.last().name_view() != name {
        lemma_last_index_named(s.drop_last(), name);
        assert forall|j: int| last_index_named(s, name) < j < s.len() implies s[j].name_view() != name by {
            if j < s.len() - 1 {
                assert(s[j] == s.drop_last()[j]);
            }
        }
    }
}

pub proof fn lemma_first_index_named<T: Named>(s: Seq<T>, name: Seq<char>)
    ensures
        -1 <= first_index_named(s, name) < s.len(),
        first_index_named(s, name) >= 0 ==> s[first_index_named(s, name)].name_view() == name,
        forall|j: int|
            0 <= j < s.len() && (first_index_named(s, name) == -1 || j < first_index_named(s, name))
                ==> s[j].name_view() != name,
    decreases s.len(),
{
    if s.len() > 0 && s[0].name_view() != name {
        lemma_first_index_named(s.drop_first(), name);
        assert forall|j: int|
            0 <= j < s.len() && (first_index_named(s, name) == -1 || j < first_index_named(s, name))
                implies s[j].name_view() != name by {
            if j > 0 {
                assert(s[j] == s.drop_first()[j - 1]);
            }
        }
    }
}

/// Finds the index of the last record named `name`.
pub fn find_last_named<T: Named>(v: &Vec<T>, name: &String) -> (r: Option<usize>)
    ensures
        match r {
            Some(i) => i as int == last_index_named(v@, name@) && i < v@.len(),
            None => last_index_named(v@, name@) == -1,
        },
{
    let mut i: usize = v.len();
    assert(v@.take(i as int) =~= v@);
    while i > 0
        invariant
            i <= v@.len(),
            last_index_named(v@, name@) == last_index_named(v@.take(i as int), name@),
        decreases i,
    {
        assert(v@.take(i as int).drop_last() =~= v@.take(i - 1));
        if *v[i - 1].name_string() == *name {
            return Some(i - 1);
        }
        i = i - 1;
    }
    None
}

/// Finds the index of the first record named `name`.
pub fn find_first_named<T: Named>(v: &Vec<T>, name: &String) -> (r: Option<usize>)
    ensures
        match r {
            Some(i) => i as int == first_index_named(v@, name@) && i < v@.len(),
            None => first_index_named(v@, name@) == -1,
        },
{
    proof { lemma_first_index_named(v@, name@); }
    let mut i: usize = 0;
    while i < v.len()
        invariant
            i <= v@.len(),
            forall|j: int| 0 <= j < i ==> v@[j].name_view() != name@,
            -1 <= first_index_named(v@, name@) < v@.len(),
            first_index_named(v@, name@) >= 0 ==> v@[first_index_named(v@, name@)].name_view() == name@,
            forall|j: int|
                0 <= j < v@.len() && (first_index_named(v@, name@) == -1 || j < first_index_named(v@, name@))
                    ==> v@[j].name_view() != name@,
        decreases v@.len() - i,
    {
        if *v[i].name_string() == *name {
            return Some(i);
        }
        i = i + 1;
    }
    None
}

} // verus!
