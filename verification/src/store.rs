//! A small keyed store: a vector of entries looked up by numeric key,
//! with first-match semantics. Buffers, windows and tabs each live in one;
//! fresh keys come from a counter that never repeats.

use vstd::prelude::*;

verus! {

/// One keyed entry.
pub struct Entry<T> {
    pub key: u64,
    pub val: T,
}

/// First entry with the given key, if any.
pub open spec fn lookup<T>(s: Seq<Entry<T>>, k: u64) -> Option<T>
    decreases s.len(),
{
    if s.len() == 0 {
        None
    } else if s[0].key == k {
        Some(s[0].val)
    } else {
        lookup(s.drop_first(), k)
    }
}

/// No two entries share a key.
pub open spec fn keys_distinct<T>(s: Seq<Entry<T>>) -> bool {
    forall|i: int, j: int| 0 <= i < j < s.len() ==> s[i].key != s[j].key
}

/// Every key lies below the bound.
pub open spec fn keys_below<T>(s: Seq<Entry<T>>, bound: u64) -> bool {
    forall|i: int| 0 <= i < s.len() ==> (#[trigger] s[i].key) < bound
}

/// A found index explains the lookup.
pub proof fn lemma_lookup_at<T>(s: Seq<Entry<T>>, i: int)
    requires
        0 <= i < s.len(),
        forall|j: int| 0 <= j < i ==> s[j].key != s[i].key,
    ensures
        lookup(s, s[i].key) == Some(s[i].val),
    decreases i,
{
    if i == 0 {
    } else {
        lemma_lookup_at(s.drop_first(), i - 1);
        assert(forall|j: int|
            0 <= j < i - 1 ==> #[trigger] s.drop_first()[j] == s[j + 1]);
        assert(s.drop_first()[i - 1] == s[i]);
    }
}

/// A key held by no entry is not found.
pub proof fn lemma_lookup_none<T>(s: Seq<Entry<T>>, k: u64)
    requires
        forall|j: int| 0 <= j < s.len() ==> (#[trigger] s[j].key) != k,
    ensures
        lookup(s, k) is None,
    decreases s.len(),
{
    if s.len() > 0 {
        assert(forall|j: int|
            0 <= j < s.len() - 1 ==> #[trigger] s.drop_first()[j] == s[j + 1]);
        lemma_lookup_none(s.drop_first(), k);
    }
}

/// Replacing the value at a key's entry changes that key's lookup and no
/// other.
pub proof fn lemma_lookup_update<T>(s: Seq<Entry<T>>, i: int, v: T, k2: u64)
    requires
        0 <= i < s.len(),
        forall|j: int| 0 <= j < i ==> s[j].key != s[i].key,
    ensures
        lookup(s.update(i, Entry { key: s[i].key, val: v }), s[i].key) == Some(v),
        k2 != s[i].key ==> lookup(s.update(i, Entry { key: s[i].key, val: v }), k2) == lookup(
            s,
            k2,
        ),
    decreases i,
{
    let s2 = s.update(i, Entry { key: s[i].key, val: v });
    if i == 0 {
        assert(s2[0].key == s[0].key);
        assert(s2.drop_first() =~= s.drop_first());
    } else {
        lemma_lookup_update(s.drop_first(), i - 1, v, k2);
        assert(forall|j: int|
            0 <= j < i - 1 ==> #[trigger] s.drop_first()[j] == s[j + 1]);
        assert(s.drop_first()[i - 1] == s[i]);
        assert(s2[0] == s[0]);
        assert(s2.drop_first() =~= s.drop_first().update(i - 1, Entry { key: s[i].key, val: v }));
    }
}

/// Appending a fresh entry adds that key and disturbs no other.
pub proof fn lemma_lookup_push<T>(s: Seq<Entry<T>>, e: Entry<T>, k2: u64)
    ensures
        lookup(s, e.key) is None ==> lookup(s.push(e), e.key) == Some(e.val),
        k2 != e.key ==> lookup(s.push(e), k2) == lookup(s, k2),
    decreases s.len(),
{
    if s.len() == 0 {
        assert(s.push(e)[0] == e);
        assert(s.push(e).drop_first() =~= Seq::<Entry<T>>::empty());
        if k2 != e.key {
            assert(lookup(s.push(e), k2) == lookup(s.push(e).drop_first(), k2));
            assert(lookup(s.push(e), k2) is None);
            assert(lookup(s, k2) is None);
        }
    } else {
        lemma_lookup_push(s.drop_first(), e, k2);
        assert(s.push(e)[0] == s[0]);
        assert(s.push(e).drop_first() =~= s.drop_first().push(e));
    }
}

/// Removing a key's only entry drops that key and disturbs no other.
pub proof fn lemma_lookup_remove<T>(s: Seq<Entry<T>>, i: int, k2: u64)
    requires
        0 <= i < s.len(),
        keys_distinct(s),
    ensures
        lookup(s.remove(i), s[i].key) is None,
        k2 != s[i].key ==> lookup(s.remove(i), k2) == lookup(s, k2),
    decreases i,
{
    let s2 = s.remove(i);
    if i == 0 {
        assert(s2 =~= s.drop_first());
        assert(forall|j: int|
            0 <= j < s2.len() ==> (#[trigger] s2[j].key) != s[0].key);
        lemma_lookup_none(s2, s[0].key);
    } else {
        assert(keys_distinct(s.drop_first())) by {
            assert(forall|a: int|
                0 <= a < s.len() - 1 ==> #[trigger] s.drop_first()[a] == s[a + 1]);
        }
        assert(forall|j: int|
            0 <= j < s.len() - 1 ==> #[trigger] s.drop_first()[j] == s[j + 1]);
        lemma_lookup_remove(s.drop_first(), i - 1, k2);
        assert(s2[0] == s[0]);
        assert(s2.drop_first() =~= s.drop_first().remove(i - 1));
        assert(s[0].key != s[i].key);
    }
}


/// Removing a key's first entry leaves every other key's lookup alone,
/// whether or not the key appears again later.
pub proof fn lemma_lookup_remove_first<T>(s: Seq<Entry<T>>, i: int, k2: u64)
    requires
        0 <= i < s.len(),
        forall|j: int| 0 <= j < i ==> s[j].key != s[i].key,
    ensures
        k2 != s[i].key ==> lookup(s.remove(i), k2) == lookup(s, k2),
    decreases i,
{
    let s2 = s.remove(i);
    if i == 0 {
        assert(s2 =~= s.drop_first());
    } else {
        assert(forall|j: int|
            0 <= j < s.len() - 1 ==> #[trigger] s.drop_first()[j] == s[j + 1]);
        lemma_lookup_remove_first(s.drop_first(), i - 1, k2);
        assert(s2[0] == s[0]);
        assert(s2.drop_first() =~= s.drop_first().remove(i - 1));
    }
}

/// Index of the first entry with the given key.
pub fn find_idx<T>(v: &Vec<Entry<T>>, k: u64) -> (r: Option<usize>)
    ensures
        r is Some <==> lookup(v@, k) is Some,
        r is Some ==> r.unwrap() < v@.len() && v@[r.unwrap() as int].key == k && lookup(v@, k)
            == Some(v@[r.unwrap() as int].val),
        r is Some ==> forall|j: int| 0 <= j < r.unwrap() ==> v@[j].key != k,
{
    let n = v.len();
    let mut i: usize = 0;
    proof {
        assert(v@.skip(0) =~= v@);
    }
    while i < n
        invariant
            n == v@.len(),
            0 <= i <= n,
            lookup(v@, k) == lookup(v@.skip(i as int), k),
            forall|j: int| 0 <= j < i ==> v@[j].key != k,
        decreases n - i,
    {
        proof {
            assert(v@.skip(i as int)[0] == v@[i as int]);
            assert(v@.skip(i as int).drop_first() =~= v@.skip(i + 1));
        }
        if v[i].key == k {
            return Some(i);
        }
        i = i + 1;
    }
    proof {
        assert(v@.skip(n as int).len() == 0);
    }
    None
}

} // verus!
