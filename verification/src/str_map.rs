//! A map keyed by strings, kept as a vector of entries in insertion order.
use vstd::prelude::*;
use crate::strs::str_eq;

verus! {

/// The value stored for `k` in `e` (the first entry with that key), if any
pub open spec fn lookup<V>(e: Seq<(String, V)>, k: Seq<char>) -> Option<V>
    decreases e.len(),
{
    if e.len() == 0 {
        None
    } else if e[0].0@ == k {
        Some(e[0].1)
    } else {
        lookup(e.drop_first(), k)
    }
}

/// The value of the last entry of `e` with the key `k`, if any
pub open spec fn lookup_last<V>(e: Seq<(String, V)>, k: Seq<char>) -> Option<V>
    decreases e.len(),
{
    if e.len() == 0 {
        None
    } else if e.last().0@ == k {
        Some(e.last().1)
    } else {
        lookup_last(e.drop_last(), k)
    }
}

/// The index of the first entry of `e` with the key `k`, if any
pub open spec fn index_of<V>(e: Seq<(String, V)>, k: Seq<char>) -> Option<int>
    decreases e.len(),
{
    if e.len() == 0 {
        None
    } else if e[0].0@ == k {
        Some(0)
    } else {
        match index_of(e.drop_first(), k) {
            Some(i) => Some(i + 1),
            None => None,
        }
    }
}

/// `index_of` and `lookup` agree.
pub proof fn lemma_index_of<V>(e: Seq<(String, V)>, k: Seq<char>)
    ensures
        match index_of(e, k) {
            Some(i) => 0 <= i < e.len() && e[i].0@ == k && lookup(e, k) == Some(e[i].1) && forall|
                j: int,
            | 0 <= j < i ==> e[j].0@ != k,
            None => lookup(e, k) is None && forall|j: int| 0 <= j < e.len() ==> e[j].0@ != k,
        },
    decreases e.len(),
{
    if e.len() > 0 {
        lemma_index_of(e.drop_first(), k);
        assert forall|j: int| 0 < j < e.len() implies #[trigger] e[j] == e.drop_first()[j - 1] by {}
    }
}

/// Looking up after replacing the value of the first entry with key `k`.
pub proof fn lemma_lookup_update<V>(e: Seq<(String, V)>, i: int, k: String, v: V, key: Seq<char>)
    requires
        index_of(e, k@) == Some(i),
    ensures
        lookup(e.update(i, (k, v)), key) == (if key == k@ {
            Some(v)
        } else {
            lookup(e, key)
        }),
    decreases e.len(),
{
    lemma_index_of(e, k@);
    if i > 0 {
        assert(e.update(i, (k, v)).drop_first() =~= e.drop_first().update(i - 1, (k, v)));
        lemma_lookup_update(e.drop_first(), i - 1, k, v, key);
    } else {
        assert(e.update(i, (k, v)).drop_first() =~= e.drop_first());
    }
}

/// Looking up after appending an entry whose key is not present.
pub proof fn lemma_lookup_push<V>(e: Seq<(String, V)>, k: String, v: V, key: Seq<char>)
    requires
        lookup(e, k@) is None,
    ensures
        lookup(e.push((k, v)), key) == (if key == k@ {
            Some(v)
        } else {
            lookup(e, key)
        }),
    decreases e.len(),
{
    if e.len() > 0 {
        assert(e.push((k, v)).drop_first() =~= e.drop_first().push((k, v)));
        lemma_lookup_push(e.drop_first(), k, v, key);
    } else {
        assert(e.push((k, v)).drop_first() =~= e);
    }
}

/// No two entries of `e` have the same key
pub open spec fn unique_keys<V>(e: Seq<(String, V)>) -> bool {
    forall|i: int, j: int| 0 <= i < j < e.len() ==> (#[trigger] e[i]).0@ != (#[trigger] e[j]).0@
}

/// With unique keys, the last entry for a key is the first one.
pub proof fn lemma_lookup_last_unique<V>(e: Seq<(String, V)>, k: Seq<char>)
    requires
        unique_keys(e),
    ensures
        lookup_last(e, k) == lookup(e, k),
    decreases e.len(),
{
    if e.len() > 0 {
        let d = e.drop_last();
        assert(unique_keys(d)) by {
            assert forall|i: int, j: int| 0 <= i < j < d.len() implies (#[trigger] d[i]).0@ != (#[trigger] d[j]).0@ by {
                assert(d[i] == e[i] && d[j] == e[j]);
            }
        }
        lemma_lookup_last_unique(d, k);
        assert(e == d.push(e.last()));
        lemma_index_of(d, e.last().0@);
        if lookup(d, e.last().0@) is Some {
            let i = index_of(d, e.last().0@).unwrap();
            assert(e[i] == d[i]);
            assert(e[e.len() - 1] == e.last());
            assert(false);
        }
        lemma_lookup_push(d, e.last().0, e.last().1, k);
    }
}

/// Two sequences of entries that agree entry by entry, viewed, give values that agree, viewed.
pub proof fn lemma_lookup_same_views<V: View>(a: Seq<(String, V)>, b: Seq<(String, V)>, k: Seq<char>)
    requires
        a.len() == b.len(),
        forall|i: int| 0 <= i < a.len() ==> (#[trigger] a[i]).0@ == b[i].0@ && a[i].1@ == b[i].1@,
    ensures
        lookup(a, k) is Some == lookup(b, k) is Some,
        lookup(a, k) is Some ==> lookup(a, k).unwrap()@ == lookup(b, k).unwrap()@,
    decreases a.len(),
{
    if a.len() > 0 {
        assert(a[0].0@ == b[0].0@);
        assert forall|i: int| 0 <= i < a.len() - 1 implies (#[trigger] a.drop_first()[i]).0@ == b.drop_first()[i].0@
            && a.drop_first()[i].1@ == b.drop_first()[i].1@ by {
            assert(a.drop_first()[i] == a[i + 1]);
            assert(b.drop_first()[i] == b[i + 1]);
        }
        lemma_lookup_same_views(a.drop_first(), b.drop_first(), k);
    }
}

/// A map from strings to `V`; iteration visits entries in insertion order
#[derive(Debug)]
pub struct StrMap<V> {
    pub entries: Vec<(String, V)>,
}

impl<V> StrMap<V> {
    /// The value for `k`, if any
    pub open spec fn spec_get(&self, k: Seq<char>) -> Option<V> {
        lookup(self.entries@, k)
    }

    /// Whether there is a value for `k`
    pub open spec fn spec_contains(&self, k: Seq<char>) -> bool {
        lookup(self.entries@, k) is Some
    }

    /// Well-formed: no key has two entries. Each operation of the map keeps it.
    pub open spec fn wf(&self) -> bool {
        unique_keys(self.entries@)
    }

    /// An empty map
    pub fn new() -> (r: StrMap<V>)
        ensures
            r.wf(),
            r.entries@.len() == 0,
            forall|k: Seq<char>| #[trigger] r.spec_get(k) is None,
    {
        StrMap { entries: Vec::new() }
    }

    /// Number of entries
    pub fn len(&self) -> (r: usize)
        ensures
            r == self.entries@.len(),
    {
        self.entries.len()
    }

    /// Index of the entry for `k`, if any
    pub fn find(&self, k: &str) -> (r: Option<usize>)
        ensures
            match r {
                Some(i) => index_of(self.entries@, k@) == Some(i as int),
                None => index_of(self.entries@, k@) is None,
            },
    {
        let ghost e = self.entries@;
        assert(e.skip(0) =~= e);
        let mut i: usize = 0;
        while i < self.entries.len()
            invariant
                e == self.entries@,
                0 <= i <= e.len(),
                index_of(e, k@) == (match index_of(e.skip(i as int), k@) {
                    Some(j) => Some(j + i),
                    None => None,
                }),
            decreases e.len() - i,
        {
            assert(e.skip(i as int).drop_first() =~= e.skip(i + 1));
            if str_eq(self.entries[i].0.as_str(), k) {
                return Some(i);
            }
            i += 1;
        }
        None
    }

    /// The value for `k`, if any
    pub fn get(&self, k: &str) -> (r: Option<&V>)
        ensures
            match r {
                Some(v) => self.spec_get(k@) == Some(*v),
                None => self.spec_get(k@) is None,
            },
    {
        proof { lemma_index_of(self.entries@, k@); }
        match self.find(k) {
            Some(i) => Some(&self.entries[i].1),
            None => None,
        }
    }

    /// The value for `k`, to be changed in place, if any
    pub fn get_mut(&mut self, k: &str) -> (r: Option<&mut V>)
        ensures
            match index_of(old(self).entries@, k@) {
                Some(i) => r is Some && *r->0 == old(self).entries@[i].1 && final(self).entries@
                    == old(self).entries@.update(i, (old(self).entries@[i].0, *final(r->0))),
                None => r is None && final(self).entries@ == old(self).entries@,
            },
            r is Some == old(self).spec_contains(k@),
            r is Some ==> old(self).spec_get(k@) == Some(*r->0),
            forall|key: Seq<char>|
                #[trigger] final(self).spec_get(key) == (if key == k@ && old(self).spec_contains(k@) {
                    Some(*final(r->0))
                } else {
                    old(self).spec_get(key)
                }),
            old(self).wf() ==> final(self).wf(),
    {
        proof { lemma_index_of(self.entries@, k@); }
        match self.find(k) {
            Some(i) => {
                let ghost e = self.entries@;
                let ghost ki = self.entries@[i as int].0;
                let r = &mut self.entries[i].1;
                proof {
                    assert forall|key: Seq<char>| #[trigger]
                        lookup(e.update(i as int, (ki, *final(r))), key) == (if key == k@ {
                            Some(*final(r))
                        } else {
                            lookup(e, key)
                        }) by {
                        lemma_lookup_update(e, i as int, ki, *final(r), key);
                    }
                }
                Some(r)
            },
            None => None,
        }
    }

    /// Whether there is a value for `k`
    pub fn contains_key(&self, k: &str) -> (r: bool)
        ensures
            r == self.spec_contains(k@),
    {
        proof { lemma_index_of(self.entries@, k@); }
        self.find(k).is_some()
    }

    /// Set the value for `k` (replacing the old one, which keeps its place)
    pub fn insert(&mut self, k: String, v: V)
        ensures
            forall|key: Seq<char>|
                #[trigger] final(self).spec_get(key) == (if key == k@ {
                    Some(v)
                } else {
                    old(self).spec_get(key)
                }),
            old(self).spec_contains(k@) ==> final(self).entries@.len() == old(self).entries@.len(),
            !old(self).spec_contains(k@) ==> final(self).entries@.len() == old(self).entries@.len() + 1,
            forall|j: int|
                0 <= j < old(self).entries@.len() ==> #[trigger] final(self).entries@[j].0@ == old(
                    self,
                ).entries@[j].0@,
            unique_keys(old(self).entries@) ==> unique_keys(final(self).entries@),
    {
        proof { lemma_index_of(self.entries@, k@); }
        let ghost e0 = self.entries@;
        match self.find(k.as_str()) {
            Some(i) => {
                let ghost e = self.entries@;
                let ghost kk = k;
                let ghost vv = v;
                self.entries.set(i, (k, v));
                proof {
                    assert(self.entries@ == e.update(i as int, (kk, vv)));
                    assert forall|key: Seq<char>| #[trigger]
                        lookup(self.entries@, key) == (if key == kk@ {
                            Some(vv)
                        } else {
                            lookup(e, key)
                        }) by {
                        lemma_lookup_update(e, i as int, kk, vv, key);
                    }
                }
            },
            None => {
                let ghost e = self.entries@;
                let ghost kk = k;
                let ghost vv = v;
                self.entries.push((k, v));
                proof {
                    assert forall|key: Seq<char>| #[trigger]
                        lookup(self.entries@, key) == (if key == kk@ {
                            Some(vv)
                        } else {
                            lookup(e, key)
                        }) by {
                        lemma_lookup_push(e, kk, vv, key);
                    }
                }
            },
        }
    }

    /// Insert all entries of `other`, in order (so its last entry for a key wins)
    pub fn extend(&mut self, other: StrMap<V>)
        ensures
            forall|key: Seq<char>|
                #[trigger] final(self).spec_get(key) == (match lookup_last(other.entries@, key) {
                    Some(v) => Some(v),
                    None => old(self).spec_get(key),
                }),
            old(self).wf() ==> final(self).wf(),
    {
        let ghost orig = other.entries@;
        let ghost start = *self;
        let mut es = other.entries;
        let ghost mut i: int = 0;
        assert(orig.skip(0) =~= orig);
        while es.len() > 0
            invariant
                0 <= i <= orig.len(),
                es@ == orig.skip(i),
                forall|key: Seq<char>|
                    #[trigger] self.spec_get(key) == (match lookup_last(orig.take(i), key) {
                        Some(v) => Some(v),
                        None => start.spec_get(key),
                    }),
                start.wf() ==> self.wf(),
            decreases es.len(),
        {
            let ghost before = *self;
            assert(es@.len() == orig.len() - i);
            let (k, v) = es.remove(0);
            proof {
                assert(orig.skip(i)[0] == orig[i]);
                assert(orig.skip(i).drop_first() =~= orig.skip(i + 1));
                assert(orig.take(i + 1).drop_last() =~= orig.take(i));
                assert(orig.take(i + 1).last() == orig[i]);
            }
            self.insert(k, v);
            proof { i = i + 1; }
        }
        assert(orig.take(orig.len() as int) =~= orig);
    }

    /// The key of the `i`-th entry
    pub fn key_at(&self, i: usize) -> (r: &String)
        requires
            i < self.entries@.len(),
        ensures
            *r == self.entries@[i as int].0,
    {
        &self.entries[i].0
    }

    /// The value of the `i`-th entry
    pub fn value_at(&self, i: usize) -> (r: &V)
        requires
            i < self.entries@.len(),
        ensures
            *r == self.entries@[i as int].1,
    {
        &self.entries[i].1
    }
}

} // verus!
