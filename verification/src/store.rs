use crate::text::{compare_pair, lemma_pair_lt_order, pair_lt, compare_str, lemma_seq_lt_asymmetric, lemma_seq_lt_irreflexive, lemma_seq_lt_transitive, seq_lt};
use vstd::prelude::*;

verus! {

/// A value that carries its own string key.
pub trait Keyed {
    spec fn key(&self) -> Seq<char>;

    fn key_str(&self) -> (r: &str)
        ensures
            r@ == self.key(),
    ;
}

/// Entries ordered by strictly increasing key, as a `BTreeMap` keeps them.
pub open spec fn sorted_by_key<V: Keyed>(s: Seq<V>) -> bool {
    forall|i: int, j: int| 0 <= i < j < s.len() ==> seq_lt(#[trigger] s[i].key(), #[trigger] s[j].key())
}

/// Some entry carries the key `k`.
pub open spec fn has_key<V: Keyed>(s: Seq<V>, k: Seq<char>) -> bool {
    exists|i: int| 0 <= i < s.len() && #[trigger] s[i].key() == k
}

/// The index of the entry that carries `k`.
pub open spec fn index_of_key<V: Keyed>(s: Seq<V>, k: Seq<char>) -> int {
    choose|i: int| 0 <= i < s.len() && #[trigger] s[i].key() == k
}

/// The entries as a map from key to entry.
pub open spec fn store_map<V: Keyed>(s: Seq<V>) -> Map<Seq<char>, V> {
    Map::new(|k: Seq<char>| has_key(s, k), |k: Seq<char>| s[index_of_key(s, k)])
}

pub proof fn lemma_sorted_unique<V: Keyed>(s: Seq<V>, i: int, j: int)
    requires
        sorted_by_key(s),
        0 <= i < s.len(),
        0 <= j < s.len(),
        s[i].key() == s[j].key(),
    ensures
        i == j,
{
    if i < j {
        lemma_seq_lt_irreflexive(s[i].key());
    } else if j < i {
        lemma_seq_lt_irreflexive(s[i].key());
    }
}

/// In a sorted store the entry for a key is the one at its index.
pub proof fn lemma_store_map_index<V: Keyed>(s: Seq<V>, i: int)
    requires
        sorted_by_key(s),
        0 <= i < s.len(),
    ensures
        has_key(s, s[i].key()),
        index_of_key(s, s[i].key()) == i,
        store_map(s).dom().contains(s[i].key()),
        store_map(s)[s[i].key()] == s[i],
{
    assert(has_key(s, s[i].key()));
    let j = index_of_key(s, s[i].key());
    lemma_sorted_unique(s, i, j);
}

/// Replacing an entry by one with the same key keeps the order and updates the map.
pub proof fn lemma_store_update<V: Keyed>(s: Seq<V>, i: int, v: V)
    requires
        sorted_by_key(s),
        0 <= i < s.len(),
        v.key() == s[i].key(),
    ensures
        sorted_by_key(s.update(i, v)),
        store_map(s.update(i, v)) == store_map(s).insert(v.key(), v),
{
    let t = s.update(i, v);
    assert forall|a: int, b: int| 0 <= a < b < t.len() implies seq_lt(#[trigger] t[a].key(), #[trigger] t[b].key()) by {
        assert(seq_lt(s[a].key(), s[b].key()));
    }
    assert forall|k: Seq<char>| #[trigger] has_key(t, k) <==> has_key(s, k) || k == v.key() by {
        if has_key(t, k) {
            let j = choose|j: int| 0 <= j < t.len() && #[trigger] t[j].key() == k;
            assert(s[j].key() == k);
        }
        if has_key(s, k) {
            let j = choose|j: int| 0 <= j < s.len() && #[trigger] s[j].key() == k;
            assert(t[j].key() == k);
        }
        if k == v.key() {
            assert(t[i].key() == k);
        }
    }
    assert forall|k: Seq<char>| #[trigger] store_map(t).dom().contains(k) implies store_map(t)[k] == store_map(s).insert(v.key(), v)[k] by {
        let j = index_of_key(t, k);
        lemma_store_map_index(t, j);
        if j != i {
            assert(s[j].key() == k);
            lemma_store_map_index(s, j);
            if k == v.key() {
                lemma_sorted_unique(s, j, i);
            }
        }
    }
    assert(store_map(t) =~= store_map(s).insert(v.key(), v));
}

/// `lemma_store_update` for every replacement of the entry at `i`.
pub proof fn lemma_store_updates<V: Keyed>(s: Seq<V>, i: int)
    requires
        sorted_by_key(s),
        0 <= i < s.len(),
    ensures
        forall|v: V| v.key() == s[i].key() ==> sorted_by_key(#[trigger] s.update(i, v))
            && store_map(s.update(i, v)) == store_map(s).insert(v.key(), v),
{
    assert forall|v: V| v.key() == s[i].key() implies sorted_by_key(#[trigger] s.update(i, v))
        && store_map(s.update(i, v)) == store_map(s).insert(v.key(), v) by {
        lemma_store_update(s, i, v);
    }
}

/// Dropping the last entry of a sorted store drops its key from the map.
pub proof fn lemma_store_drop_last<V: Keyed>(s: Seq<V>)
    requires
        sorted_by_key(s),
        s.len() > 0,
    ensures
        sorted_by_key(s.drop_last()),
        store_map(s.drop_last()) == store_map(s).remove(s.last().key()),
{
    let t = s.drop_last();
    let n = s.len() - 1;
    assert forall|a: int, b: int| 0 <= a < b < t.len() implies seq_lt(#[trigger] t[a].key(), #[trigger] t[b].key()) by {
        assert(seq_lt(s[a].key(), s[b].key()));
    }
    assert forall|k: Seq<char>| #[trigger] has_key(t, k) <==> has_key(s, k) && k != s.last().key() by {
        if has_key(t, k) {
            let j = choose|j: int| 0 <= j < t.len() && #[trigger] t[j].key() == k;
            assert(s[j].key() == k);
            if k == s.last().key() {
                assert(s[n].key() == k);
                lemma_sorted_unique(s, j, n);
            }
        }
        if has_key(s, k) && k != s.last().key() {
            let j = choose|j: int| 0 <= j < s.len() && #[trigger] s[j].key() == k;
            assert(j != n);
            assert(t[j].key() == k);
        }
    }
    assert forall|k: Seq<char>| #[trigger] store_map(t).dom().contains(k)
        implies store_map(t)[k] == store_map(s).remove(s.last().key())[k] by {
        let j = index_of_key(t, k);
        lemma_store_map_index(t, j);
        assert(s[j] == t[j]);
        lemma_store_map_index(s, j);
    }
    assert(store_map(t) =~= store_map(s).remove(s.last().key()));
}

/// A sorted store is determined by its map: two sorted stores with the same map are the same.
pub proof fn lemma_store_map_injective<V: Keyed>(s: Seq<V>, t: Seq<V>)
    requires
        sorted_by_key(s),
        sorted_by_key(t),
        store_map(s) == store_map(t),
    ensures
        s == t,
    decreases s.len() + t.len(),
{
    if s.len() == 0 && t.len() == 0 {
        assert(s =~= t);
    } else if s.len() == 0 {
        lemma_store_map_index(t, t.len() - 1);
        assert(!has_key(s, t[t.len() - 1].key()));
    } else if t.len() == 0 {
        lemma_store_map_index(s, s.len() - 1);
        assert(!has_key(t, s[s.len() - 1].key()));
    } else {
        let ns = s.len() - 1;
        let nt = t.len() - 1;
        let ks = s[ns].key();
        let kt = t[nt].key();
        lemma_store_map_index(s, ns);
        lemma_store_map_index(t, nt);
        let js = index_of_key(t, ks);
        let jt = index_of_key(s, kt);
        lemma_store_map_index(t, js);
        lemma_store_map_index(s, jt);
        if ks != kt {
            if js < nt {
                assert(seq_lt(t[js].key(), t[nt].key()));
            }
            if jt < ns {
                assert(seq_lt(s[jt].key(), s[ns].key()));
            }
            lemma_seq_lt_asymmetric(ks, kt);
        }
        assert(s.last() == t.last());
        lemma_store_drop_last(s);
        lemma_store_drop_last(t);
        lemma_store_map_injective(s.drop_last(), t.drop_last());
        assert(s =~= s.drop_last().push(s.last()));
        assert(t =~= t.drop_last().push(t.last()));
    }
}

/// Inserting an entry that keeps the order adds it to the map.
pub proof fn lemma_store_insert<V: Keyed>(s: Seq<V>, p: int, v: V)
    requires
        sorted_by_key(s),
        0 <= p <= s.len(),
        sorted_by_key(s.insert(p, v)),
    ensures
        store_map(s.insert(p, v)) == store_map(s).insert(v.key(), v),
        !has_key(s, v.key()),
{
    let t = s.insert(p, v);
    assert forall|k: Seq<char>| #[trigger] has_key(t, k) <==> has_key(s, k) || k == v.key() by {
        if has_key(t, k) {
            let j = choose|j: int| 0 <= j < t.len() && #[trigger] t[j].key() == k;
            if j < p {
                assert(s[j].key() == k);
            } else if j > p {
                assert(s[j - 1].key() == k);
            }
        }
        if has_key(s, k) {
            let j = choose|j: int| 0 <= j < s.len() && #[trigger] s[j].key() == k;
            if j < p {
                assert(t[j].key() == k);
            } else {
                assert(t[j + 1].key() == k);
            }
        }
        if k == v.key() {
            assert(t[p].key() == k);
        }
    }
    if has_key(s, v.key()) {
        let j = choose|j: int| 0 <= j < s.len() && #[trigger] s[j].key() == v.key();
        if j < p {
            assert(t[j].key() == v.key());
            lemma_sorted_unique(t, j, p);
        } else {
            assert(t[j + 1].key() == v.key());
            lemma_sorted_unique(t, j + 1, p);
        }
    }
    assert forall|k: Seq<char>| #[trigger] store_map(t).dom().contains(k) implies store_map(t)[k] == store_map(s).insert(v.key(), v)[k] by {
        let j = index_of_key(t, k);
        lemma_store_map_index(t, j);
        if j < p {
            assert(s[j].key() == k);
            lemma_store_map_index(s, j);
        } else if j > p {
            assert(s[j - 1].key() == k);
            lemma_store_map_index(s, j - 1);
        }
    }
    assert(store_map(t) =~= store_map(s).insert(v.key(), v));
}

/// Entries kept in strictly increasing key order.
#[derive(Clone, Debug, PartialEq, Eq)]
pub struct KeyedStore<V> {
    items: Vec<V>,
}

impl<V> View for KeyedStore<V> {
    type V = Seq<V>;

    closed spec fn view(&self) -> Seq<V> {
        self.items@
    }
}

impl<V: Keyed> KeyedStore<V> {
    pub open spec fn wf(&self) -> bool {
        sorted_by_key(self@)
    }

    pub open spec fn map(&self) -> Map<Seq<char>, V> {
        store_map(self@)
    }

    /// The entry found under a key carries that key.
    pub proof fn lemma_map_key(&self, k: Seq<char>)
        requires
            self.map().dom().contains(k),
        ensures
            self.map()[k].key() == k,
    {
    }

    pub fn new() -> (r: KeyedStore<V>)
        ensures
            r@ == Seq::<V>::empty(),
            r.wf(),
    {
        KeyedStore { items: Vec::new() }
    }

    /// The store holding `items` in their order; it is well formed when their keys increase.
    pub fn from_vec(items: Vec<V>) -> (r: KeyedStore<V>)
        ensures
            r@ == items@,
    {
        KeyedStore { items }
    }

    /// Appends an entry whose key comes after every key in the store.
    pub fn push_last(&mut self, v: V)
        requires
            old(self).wf(),
            old(self)@.len() == 0 || seq_lt(old(self)@.last().key(), v.key()),
        ensures
            final(self)@ == old(self)@.push(v),
            final(self).wf(),
    {
        let ghost s = self@;
        self.items.push(v);
        proof {
            assert forall|a: int, b: int| 0 <= a < b < self@.len() implies seq_lt(#[trigger] self@[a].key(), #[trigger] self@[b].key()) by {
                if b == s.len() && a < s.len() - 1 {
                    assert(seq_lt(s[a].key(), s[s.len() - 1].key()));
                    lemma_seq_lt_transitive(s[a].key(), s[s.len() - 1].key(), v.key());
                } else if b < s.len() {
                    assert(self@[a] == s[a] && self@[b] == s[b]);
                }
            }
        }
    }

    pub fn len(&self) -> (r: usize)
        ensures
            r == self@.len(),
    {
        self.items.len()
    }

    pub fn at(&self, i: usize) -> (r: &V)
        requires
            i < self@.len(),
        ensures
            *r == self@[i as int],
    {
        &self.items[i]
    }

    pub fn as_slice(&self) -> (r: &[V])
        ensures
            r@ == self@,
    {
        self.items.as_slice()
    }

    /// The index of the entry with key `key`, if there is one.
    pub fn find(&self, key: &str) -> (r: Option<usize>)
        requires
            self.wf(),
        ensures
            match r {
                Some(i) => i < self@.len() && self@[i as int].key() == key@
                    && index_of_key(self@, key@) == i,
                None => !has_key(self@, key@),
            },
            r is Some <==> self.map().dom().contains(key@),
    {
        let mut i: usize = 0;
        while i < self.items.len()
            invariant
                i <= self.items@.len(),
                self.wf(),
                forall|j: int| 0 <= j < i ==> #[trigger] self.items@[j].key() != key@,
            decreases self.items.len() - i,
        {
            let k = self.items[i].key_str();
            if compare_str(k, key) == 0 {
                proof { lemma_store_map_index(self@, i as int); }
                return Some(i);
            }
            i = i + 1;
        }
        None
    }

    /// Adds an entry whose key is new; gives the entry back when the key is taken.
    pub fn insert_new(&mut self, v: V) -> (r: core::result::Result<(), V>)
        requires
            old(self).wf(),
        ensures
            final(self).wf(),
            has_key(old(self)@, v.key()) ==> r == core::result::Result::<(), V>::Err(v) && final(self)@ == old(self)@,
            !has_key(old(self)@, v.key()) ==> r is Ok && final(self).map() == old(self).map().insert(v.key(), v),
            !has_key(old(self)@, v.key()) ==> final(self)@.len() == old(self)@.len() + 1,
    {
        let ghost s = self.items@;
        let mut p: usize = 0;
        while p < self.items.len()
            invariant
                s == self.items@,
                p <= s.len(),
                sorted_by_key(s),
                forall|j: int| 0 <= j < p ==> seq_lt(#[trigger] s[j].key(), v.key()),
            ensures
                p <= s.len(),
                forall|j: int| 0 <= j < p ==> seq_lt(#[trigger] s[j].key(), v.key()),
                p < s.len() ==> seq_lt(v.key(), s[p as int].key()),
            decreases self.items.len() - p,
        {
            let c = compare_str(self.items[p].key_str(), v.key_str());
            if c == 0 {
                proof { assert(s[p as int].key() == v.key()); }
                return Err(v);
            } else if c == 1 {
                break;
            }
            p = p + 1;
        }
        proof {
            if has_key(s, v.key()) {
                let j = choose|j: int| 0 <= j < s.len() && #[trigger] s[j].key() == v.key();
                if j < p {
                    lemma_seq_lt_irreflexive(v.key());
                } else if p < s.len() {
                    if j > p {
                        lemma_seq_lt_transitive(v.key(), s[p as int].key(), s[j].key());
                    }
                    lemma_seq_lt_irreflexive(v.key());
                }
            }
        }
        let ghost t = s.insert(p as int, v);
        proof {
            assert forall|a: int, b: int| 0 <= a < b < t.len() implies seq_lt(#[trigger] t[a].key(), #[trigger] t[b].key()) by {
                if b < p {
                    assert(seq_lt(s[a].key(), s[b].key()));
                } else if b == p {
                    assert(seq_lt(s[a].key(), v.key()));
                } else if a < p {
                    assert(seq_lt(s[a].key(), v.key()));
                    if b - 1 > p {
                        assert(seq_lt(s[p as int].key(), s[b - 1].key()));
                        lemma_seq_lt_transitive(v.key(), s[p as int].key(), s[b - 1].key());
                    }
                    lemma_seq_lt_transitive(s[a].key(), v.key(), s[b - 1].key());
                } else if a == p {
                    if b - 1 > p {
                        assert(seq_lt(s[p as int].key(), s[b - 1].key()));
                        lemma_seq_lt_transitive(v.key(), s[p as int].key(), s[b - 1].key());
                    }
                } else {
                    assert(seq_lt(s[a - 1].key(), s[b - 1].key()));
                }
            }
            lemma_store_insert(s, p as int, v);
        }
        self.items.insert(p, v);
        Ok(())
    }

    /// Adds an entry, replacing the one with the same key if there is one.
    pub fn upsert(&mut self, v: V)
        requires
            old(self).wf(),
        ensures
            final(self).wf(),
            final(self).map() == old(self).map().insert(v.key(), v),
    {
        match self.find(v.key_str()) {
            Some(i) => {
                let ghost before = self.items@;
                let _replaced = self.take(i);
                self.put_back(i, v, Ghost(before));
            },
            None => {
                let _ = self.insert_new(v);
            },
        }
    }

    /// The entry at `i`, to be changed in place.
    pub fn at_mut(&mut self, i: usize) -> (r: &mut V)
        requires
            i < old(self)@.len(),
        ensures
            *r == old(self)@[i as int],
            final(self)@ == old(self)@.update(i as int, *final(r)),
    {
        &mut self.items[i]
    }

    /// The entry with key `key`, to be changed in place. A change that keeps the key keeps the store
    /// ordered and replaces that entry in its map.
    pub fn get_mut(&mut self, key: &str) -> (r: Option<&mut V>)
        requires
            old(self).wf(),
        ensures
            !old(self).map().dom().contains(key@) ==> r is None && *final(self) == *old(self),
            old(self).map().dom().contains(key@) ==> r is Some && *r->Some_0 == old(self).map()[key@]
                && final(self)@ == old(self)@.update(index_of_key(old(self)@, key@), *final(r->Some_0)),
            r is Some && final(r->Some_0).key() == key@ ==> final(self).wf()
                && final(self).map() == old(self).map().insert(key@, *final(r->Some_0)),
    {
        match self.find(key) {
            Some(i) => {
                let ghost before = self@;
                proof {
                    lemma_store_map_index(before, i as int);
                    lemma_store_updates(before, i as int);
                }
                Some(self.at_mut(i))
            },
            None => None,
        }
    }

    /// The entry with key `key`, where `fresh` (which carries that key) is added first when there
    /// is none; to be changed in place. A change that keeps the key keeps the store ordered.
    pub fn entry_or_insert(&mut self, key: &str, fresh: V) -> (r: &mut V)
        requires
            old(self).wf(),
            fresh.key() == key@,
        ensures
            *r == (if old(self).map().dom().contains(key@) { old(self).map()[key@] } else { fresh }),
            final(r).key() == key@ ==> final(self).wf()
                && final(self).map() == old(self).map().insert(key@, *final(r)),
    {
        if self.find(key).is_none() {
            let _ = self.insert_new(fresh);
        } else {
            proof { assert(old(self).map().insert(key@, old(self).map()[key@]) =~= old(self).map()); }
        }
        let ghost mid = self.map();
        let i = match self.find(key) {
            Some(i) => i,
            None => 0,
        };
        let ghost ins = self@;
        proof {
            assert(self.map().dom().contains(key@));
            lemma_store_map_index(ins, i as int);
        }
        proof {
            lemma_store_updates(ins, i as int);
            assert forall|v: V| v.key() == key@ implies #[trigger] mid.insert(key@, v) == old(self).map().insert(key@, v) by {
                assert(mid.insert(key@, v) =~= old(self).map().insert(key@, v));
            }
        }
        self.at_mut(i)
    }

    /// Takes the entry at `i` out of the store, to be put back with `put_back`.
    pub fn take(&mut self, i: usize) -> (v: V)
        requires
            old(self).wf(),
            i < old(self)@.len(),
        ensures
            v == old(self)@[i as int],
            final(self)@ == old(self)@.remove(i as int),
    {
        self.items.remove(i)
    }

    /// Puts back at `i` an entry with the key of the one taken from `before`.
    pub fn put_back(&mut self, i: usize, v: V, before: Ghost<Seq<V>>)
        requires
            sorted_by_key(before@),
            i < before@.len(),
            old(self)@ == before@.remove(i as int),
            v.key() == before@[i as int].key(),
        ensures
            final(self)@ == before@.update(i as int, v),
            final(self).wf(),
            final(self).map() == store_map(before@).insert(v.key(), v),
    {
        proof {
            lemma_store_update(before@, i as int, v);
            assert(before@.remove(i as int).insert(i as int, v) == before@.update(i as int, v));
        }
        self.items.insert(i, v);
    }

    /// Removes and returns the entry at `i`, keeping the order.
    pub fn remove_at(&mut self, i: usize) -> (v: V)
        requires
            old(self).wf(),
            i < old(self)@.len(),
        ensures
            v == old(self)@[i as int],
            final(self)@ == old(self)@.remove(i as int),
            final(self).wf(),
            final(self).map() == old(self).map().remove(v.key()),
    {
        let ghost s = self.items@;
        let v = self.items.remove(i);
        proof {
            let t = self.items@;
            assert(t == s.remove(i as int));
            assert forall|a: int, b: int| 0 <= a < b < t.len() implies seq_lt(#[trigger] t[a].key(), #[trigger] t[b].key()) by {
                if a < i && b < i {
                } else if a < i {
                    assert(t[b] == s[b + 1]);
                } else {
                    assert(t[a] == s[a + 1]);
                    assert(t[b] == s[b + 1]);
                }
            }
            assert forall|k: Seq<char>| #[trigger] has_key(t, k) <==> has_key(s, k) && k != v.key() by {
                if has_key(t, k) {
                    let j = choose|j: int| 0 <= j < t.len() && #[trigger] t[j].key() == k;
                    if j < i {
                        assert(s[j].key() == k);
                        if k == v.key() { lemma_sorted_unique(s, j, i as int); }
                    } else {
                        assert(s[j + 1].key() == k);
                        if k == v.key() { lemma_sorted_unique(s, j + 1, i as int); }
                    }
                }
                if has_key(s, k) && k != v.key() {
                    let j = choose|j: int| 0 <= j < s.len() && #[trigger] s[j].key() == k;
                    if j < i {
                        assert(t[j].key() == k);
                    } else {
                        assert(j != i);
                        assert(t[j - 1].key() == k);
                    }
                }
            }
            assert forall|k: Seq<char>| #[trigger] store_map(t).dom().contains(k) implies store_map(t)[k] == store_map(s).remove(v.key())[k] by {
                let j = index_of_key(t, k);
                lemma_store_map_index(t, j);
                if j < i {
                    lemma_store_map_index(s, j);
                } else {
                    lemma_store_map_index(s, j + 1);
                }
            }
            assert(store_map(t) =~= store_map(s).remove(v.key()));
        }
        v
    }
}

/// The string pairs behind a vector of owned pairs.
pub open spec fn pair_views(v: Seq<(String, String)>) -> Seq<(Seq<char>, Seq<char>)> {
    v.map_values(|k: (String, String)| (k.0@, k.1@))
}

/// Pairs in strictly increasing order.
pub open spec fn pairs_sorted(s: Seq<(Seq<char>, Seq<char>)>) -> bool {
    forall|i: int, j: int| 0 <= i < j < s.len() ==> pair_lt(#[trigger] s[i], #[trigger] s[j])
}

/// Adds the pair `(a, b)` to a strictly sorted set of pairs, at its place, unless it is there.
pub fn add_pair_key(keys: &mut Vec<(String, String)>, a: &str, b: &str)
    requires
        pairs_sorted(pair_views(old(keys)@)),
    ensures
        pairs_sorted(pair_views(final(keys)@)),
        forall|k: (Seq<char>, Seq<char>)| pair_views(final(keys)@).contains(k)
            <==> pair_views(old(keys)@).contains(k) || k == (a@, b@),
{
    let ghost s = pair_views(keys@);
    let mut p: usize = 0;
    while p < keys.len()
        invariant
            s == pair_views(keys@),
            s == pair_views(old(keys)@),
            pairs_sorted(s),
            p <= s.len(),
            forall|j: int| 0 <= j < p ==> pair_lt(#[trigger] s[j], (a@, b@)),
        ensures
            s == pair_views(keys@),
            p <= s.len(),
            forall|j: int| 0 <= j < p ==> pair_lt(#[trigger] s[j], (a@, b@)),
            p < s.len() ==> pair_lt((a@, b@), s[p as int]),
        decreases keys.len() - p,
    {
        let c = compare_pair(keys[p].0.as_str(), keys[p].1.as_str(), a, b);
        if c == 0 {
            proof {
                assert(s[p as int] == (a@, b@));
                assert forall|k: (Seq<char>, Seq<char>)| pair_views(keys@).contains(k)
                    <==> pair_views(old(keys)@).contains(k) || k == (a@, b@) by {
                    if k == (a@, b@) { assert(s[p as int] == k); }
                }
            }
            return;
        } else if c == 1 {
            break;
        }
        p = p + 1;
    }
    let ghost x = (a@, b@);
    keys.insert(p, (a.to_owned(), b.to_owned()));
    proof {
        let t = pair_views(keys@);
        assert(t =~= s.insert(p as int, x));
        if p < s.len() {
            assert(pair_lt(x, s[p as int]));
        }
        assert forall|i: int, j: int| 0 <= i < j < t.len() implies pair_lt(#[trigger] t[i], #[trigger] t[j]) by {
            if j < p {
                assert(pair_lt(s[i], s[j]));
            } else if j == p {
                assert(pair_lt(s[i], x));
            } else if i < p {
                assert(pair_lt(s[i], x));
                if j - 1 > p {
                    assert(pair_lt(s[p as int], s[j - 1]));
                    lemma_pair_lt_order(x, s[p as int], s[j - 1]);
                }
                lemma_pair_lt_order(s[i], x, s[j - 1]);
            } else if i == p {
                if j - 1 > p {
                    assert(pair_lt(s[p as int], s[j - 1]));
                    lemma_pair_lt_order(x, s[p as int], s[j - 1]);
                }
            } else {
                assert(pair_lt(s[i - 1], s[j - 1]));
            }
        }
        assert forall|k: (Seq<char>, Seq<char>)| t.contains(k) <==> s.contains(k) || k == x by {
            if t.contains(k) {
                let j = choose|j: int| 0 <= j < t.len() && t[j] == k;
                if j < p { assert(s[j] == k); } else if j > p { assert(s[j - 1] == k); }
            }
            if s.contains(k) {
                let j = choose|j: int| 0 <= j < s.len() && s[j] == k;
                if j < p { assert(t[j] == k); } else { assert(t[j + 1] == k); }
            }
            if k == x { assert(t[p as int] == k); }
        }
    }
}

} // verus!
