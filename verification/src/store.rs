//! A typed key-value table: the library's model of one persistent namespace
//! of the host's store. Entries are kept in insertion order; keys are unique.

use vstd::prelude::*;

verus! {

/// A key of a table: its identity is its view.
pub trait StoreKey: View + Sized {
    fn key_eq(&self, other: &Self) -> (r: bool)
        ensures
            r == (self@ == other@),
    ;

    fn key_dup(&self) -> (r: Self)
        ensures
            r@ == self@,
    ;
}

/// A value of a table, duplicable without loss.
pub trait StoreValue: View + Sized {
    fn val_dup(&self) -> (r: Self)
        ensures
            r@ == self@,
    ;
}

/// No two entries share a key.
pub open spec fn keys_distinct<KV, VV>(s: Seq<(KV, VV)>) -> bool {
    forall|i: int, j: int| 0 <= i < j < s.len() ==> (#[trigger] s[i]).0 != (#[trigger] s[j]).0
}

/// The map that a sequence of entries denotes; a later entry wins.
pub open spec fn map_of<KV, VV>(s: Seq<(KV, VV)>) -> Map<KV, VV>
    decreases s.len(),
{
    if s.len() == 0 {
        Map::empty()
    } else {
        map_of(s.drop_last()).insert(s.last().0, s.last().1)
    }
}

pub proof fn lemma_map_of_domain<KV, VV>(s: Seq<(KV, VV)>)
    ensures
        forall|k: KV|
            map_of(s).contains_key(k) <==> (exists|i: int|
                0 <= i < s.len() && (#[trigger] s[i]).0 == k),
    decreases s.len(),
{
    if s.len() > 0 {
        lemma_map_of_domain(s.drop_last());
        assert forall|k: KV| map_of(s).contains_key(k) implies (exists|i: int|
            0 <= i < s.len() && (#[trigger] s[i]).0 == k) by {
            if k == s.last().0 {
                assert(s[s.len() - 1].0 == k);
            } else {
                assert(map_of(s.drop_last()).contains_key(k));
                let i = choose|i: int|
                    0 <= i < s.drop_last().len() && (#[trigger] s.drop_last()[i]).0 == k;
                assert(s[i] == s.drop_last()[i]);
            }
        }
        assert forall|k: KV| (exists|i: int| 0 <= i < s.len() && (#[trigger] s[i]).0 == k) implies map_of(
            s,
        ).contains_key(k) by {
            let i = choose|i: int| 0 <= i < s.len() && (#[trigger] s[i]).0 == k;
            if i < s.len() - 1 {
                assert((#[trigger] s.drop_last()[i]).0 == k);
                assert(map_of(s.drop_last()).contains_key(k));
            }
        }
    }
}

pub proof fn lemma_map_of_index<KV, VV>(s: Seq<(KV, VV)>, i: int)
    requires
        keys_distinct(s),
        0 <= i < s.len(),
    ensures
        map_of(s).contains_key(s[i].0),
        map_of(s)[s[i].0] == s[i].1,
    decreases s.len(),
{
    if i < s.len() - 1 {
        assert(keys_distinct(s.drop_last()));
        assert(s.drop_last()[i] == s[i]);
        lemma_map_of_index(s.drop_last(), i);
        assert(s.last().0 != s[i].0);
    }
}

pub proof fn lemma_map_of_push<KV, VV>(s: Seq<(KV, VV)>, k: KV, v: VV)
    ensures
        map_of(s.push((k, v))) == map_of(s).insert(k, v),
{
    assert(s.push((k, v)).drop_last() =~= s);
    assert(s.push((k, v)).last() == (k, v));
}

pub proof fn lemma_map_of_update<KV, VV>(s: Seq<(KV, VV)>, i: int, v: VV)
    requires
        keys_distinct(s),
        0 <= i < s.len(),
    ensures
        map_of(s.update(i, (s[i].0, v))) == map_of(s).insert(s[i].0, v),
    decreases s.len(),
{
    let k = s[i].0;
    let t = s.update(i, (k, v));
    if i == s.len() - 1 {
        assert(t.drop_last() =~= s.drop_last());
        assert(t.last() == (k, v));
        assert(map_of(t) == map_of(s.drop_last()).insert(k, v));
        assert(map_of(s).insert(k, v) =~= map_of(s.drop_last()).insert(k, v));
    } else {
        assert(t.drop_last() =~= s.drop_last().update(i, (k, v)));
        assert(s.drop_last()[i] == s[i]);
        assert(keys_distinct(s.drop_last()));
        lemma_map_of_update(s.drop_last(), i, v);
        assert(t.last() == s.last());
        assert(map_of(t) == map_of(s.drop_last()).insert(k, v).insert(s.last().0, s.last().1));
        assert(s.last().0 != k);
        assert(map_of(s.drop_last()).insert(k, v).insert(s.last().0, s.last().1) =~= map_of(
            s.drop_last(),
        ).insert(s.last().0, s.last().1).insert(k, v));
    }
}

pub proof fn lemma_map_of_remove<KV, VV>(s: Seq<(KV, VV)>, i: int)
    requires
        keys_distinct(s),
        0 <= i < s.len(),
    ensures
        map_of(s.remove(i)) == map_of(s).remove(s[i].0),
    decreases s.len(),
{
    let k = s[i].0;
    if i == s.len() - 1 {
        assert(s.remove(i) =~= s.drop_last());
        lemma_map_of_domain(s.drop_last());
        assert(forall|j: int| 0 <= j < s.len() - 1 ==> (#[trigger] s.drop_last()[j]).0 != k);
        assert(!map_of(s.drop_last()).contains_key(k));
        assert(map_of(s.drop_last()) =~= map_of(s.drop_last()).insert(k, s[i].1).remove(k));
    } else {
        assert(s.remove(i).drop_last() =~= s.drop_last().remove(i));
        assert(s.drop_last()[i] == s[i]);
        assert(keys_distinct(s.drop_last()));
        lemma_map_of_remove(s.drop_last(), i);
        assert(s.remove(i).last() == s.last());
        assert(map_of(s.remove(i)) == map_of(s.drop_last()).remove(k).insert(
            s.last().0,
            s.last().1,
        ));
        assert(s.last().0 != k);
        assert(map_of(s.drop_last()).remove(k).insert(s.last().0, s.last().1) =~= map_of(
            s.drop_last(),
        ).insert(s.last().0, s.last().1).remove(k));
    }
}

/// One table of the store.
pub struct Table<K: StoreKey, V: StoreValue> {
    entries: Vec<(K, V)>,
}

impl<K: StoreKey, V: StoreValue> Table<K, V> {
    /// The entries, in insertion order, as pairs of views.
    pub closed spec fn entries_view(&self) -> Seq<(K::V, V::V)> {
        self.entries@.map_values(|p: (K, V)| (p.0@, p.1@))
    }

    /// The key-value map the table holds.
    pub open spec fn as_map(&self) -> Map<K::V, V::V> {
        map_of(self.entries_view())
    }

    /// Well-formed: no two entries share a key. Constructors establish it
    /// and every method keeps it.
    pub closed spec fn wf(self) -> bool {
        keys_distinct(self.entries_view())
    }

    pub fn new() -> (r: Self)
        ensures
            r.wf(),
            r.entries_view() == Seq::<(K::V, V::V)>::empty(),
            r.as_map() == Map::<K::V, V::V>::empty(),
    {
        let r = Table { entries: Vec::new() };
        proof {
            assert(r.entries_view() =~= Seq::<(K::V, V::V)>::empty());
        }
        r
    }

    pub fn len(&self) -> (r: usize)
        ensures
            r == self.entries_view().len(),
    {
        self.entries.len()
    }

    fn find(&self, key: &K) -> (r: Option<usize>)
        ensures
            match r {
                Some(i) => i < self.entries_view().len() && self.entries_view()[i as int].0
                    == key@,
                None => forall|i: int|
                    0 <= i < self.entries_view().len() ==> (#[trigger] self.entries_view()[i]).0
                        != key@,
            },
    {
        let n = self.entries.len();
        let mut i: usize = 0;
        while i < n
            invariant
                n == self.entries_view().len(),
                i <= n,
                forall|j: int| 0 <= j < i ==> (#[trigger] self.entries_view()[j]).0 != key@,
            decreases n - i,
        {
            if self.entries[i].0.key_eq(key) {
                return Some(i);
            }
            i = i + 1;
        }
        None
    }

    pub fn contains_key(&self, key: &K) -> (r: bool)
        ensures
            r == self.as_map().contains_key(key@),
    {
        proof {
            lemma_map_of_domain(self.entries_view());
        }
        match self.find(key) {
            Some(_) => true,
            None => false,
        }
    }

    /// Look the key up, handing back a copy of the value if it is there.
    pub fn get(&self, key: &K) -> (r: Option<V>)
        requires
            self.wf(),
        ensures
            match r {
                Some(v) => self.as_map().contains_key(key@) && v@ == self.as_map()[key@],
                None => !self.as_map().contains_key(key@),
            },
    {
        proof {
            lemma_map_of_domain(self.entries_view());
        }
        match self.find(key) {
            Some(i) => {
                proof {
                    lemma_map_of_index(self.entries_view(), i as int);
                }
                Some(self.entries[i].1.val_dup())
            },
            None => None,
        }
    }

    /// Insert or replace: a fresh key is appended, an existing key keeps its
    /// position and gets the new value.
    pub fn insert(&mut self, key: K, value: V)
        requires
            old(self).wf(),
        ensures
            final(self).wf(),
            final(self).as_map() == old(self).as_map().insert(key@, value@),
            old(self).as_map().contains_key(key@) ==> {
                exists|i: int|
                    0 <= i < old(self).entries_view().len() && (#[trigger] old(
                        self,
                    ).entries_view()[i]).0 == key@ && final(self).entries_view() == old(
                        self,
                    ).entries_view().update(i, (key@, value@))
            },
            !old(self).as_map().contains_key(key@) ==> final(self).entries_view() == old(
                self,
            ).entries_view().push((key@, value@)),
    {
        proof {
            lemma_map_of_domain(self.entries_view());
        }
        let ghost s0 = self.entries_view();
        match self.find(&key) {
            Some(i) => {
                let ghost iv = i as int;
                self.entries[i] = (key, value);
                proof {
                    assert(self.entries_view() =~= s0.update(iv, (key@, value@)));
                    lemma_map_of_update(s0, iv, value@);
                    assert(s0.update(iv, (key@, value@))[iv] == (key@, value@));
                    assert forall|p: int, q: int|
                        0 <= p < q < self.entries_view().len() implies (
                    #[trigger] self.entries_view()[p]).0 != (#[trigger] self.entries_view()[q]).0 by {
                        assert(s0[p].0 == self.entries_view()[p].0 || p == iv);
                        assert(s0[q].0 == self.entries_view()[q].0 || q == iv);
                    }
                }
            },
            None => {
                self.entries.push((key, value));
                proof {
                    assert(self.entries_view() =~= s0.push((key@, value@)));
                    lemma_map_of_push(s0, key@, value@);
                    assert forall|p: int, q: int|
                        0 <= p < q < self.entries_view().len() implies (
                    #[trigger] self.entries_view()[p]).0 != (#[trigger] self.entries_view()[q]).0 by {
                        if q < s0.len() {
                            assert(s0[p].0 != s0[q].0);
                        } else {
                            assert(s0[p].0 != key@);
                        }
                    }
                }
            },
        }
    }

    /// Take the key's entry out, handing back its value if it was there.
    pub fn remove(&mut self, key: &K) -> (r: Option<V>)
        requires
            old(self).wf(),
        ensures
            final(self).wf(),
            final(self).as_map() == old(self).as_map().remove(key@),
            match r {
                Some(v) => old(self).as_map().contains_key(key@) && v@ == old(self).as_map()[key@]
                    && exists|i: int|
                    0 <= i < old(self).entries_view().len() && (#[trigger] old(
                        self,
                    ).entries_view()[i]).0 == key@ && final(self).entries_view() == old(
                        self,
                    ).entries_view().remove(i),
                None => !old(self).as_map().contains_key(key@) && final(self).entries_view() == old(
                    self,
                ).entries_view(),
            },
    {
        proof {
            lemma_map_of_domain(self.entries_view());
        }
        let ghost s0 = self.entries_view();
        match self.find(key) {
            Some(i) => {
                let ghost iv = i as int;
                proof {
                    lemma_map_of_index(s0, iv);
                    lemma_map_of_remove(s0, iv);
                }
                let (_, v) = self.entries.remove(i);
                proof {
                    assert(self.entries_view() =~= s0.remove(iv));
                    assert forall|p: int, q: int|
                        0 <= p < q < self.entries_view().len() implies (
                    #[trigger] self.entries_view()[p]).0 != (#[trigger] self.entries_view()[q]).0 by {
                        let pp = if p < iv {
                            p
                        } else {
                            p + 1
                        };
                        let qq = if q < iv {
                            q
                        } else {
                            q + 1
                        };
                        assert(s0[pp].0 != s0[qq].0);
                    }
                }
                Some(v)
            },
            None => {
                proof {
                    assert(!self.as_map().contains_key(key@));
                    assert(self.as_map() =~= self.as_map().remove(key@));
                }
                None
            },
        }
    }

    /// Every entry, in insertion order, as copies.
    pub fn all(&self) -> (r: Vec<(K, V)>)
        ensures
            r@.map_values(|p: (K, V)| (p.0@, p.1@)) == self.entries_view(),
    {
        let n = self.entries.len();
        let mut out: Vec<(K, V)> = Vec::new();
        let mut i: usize = 0;
        while i < n
            invariant
                n == self.entries.len(),
                i <= n,
                out@.map_values(|p: (K, V)| (p.0@, p.1@)) =~= self.entries_view().take(i as int),
            decreases n - i,
        {
            let ghost prev = out@;
            let p = &self.entries[i];
            let k = p.0.key_dup();
            let v = p.1.val_dup();
            out.push((k, v));
            proof {
                assert(out@ == prev.push((k, v)));
                let m = out@.map_values(|p: (K, V)| (p.0@, p.1@));
                let mp = prev.map_values(|p: (K, V)| (p.0@, p.1@));
                assert(mp == self.entries_view().take(i as int));
                assert(self.entries_view().len() == self.entries@.len());
                assert(self.entries_view().take(i as int).len() == i);
                assert(mp.len() == prev.len());
                assert(prev.len() == i);
                assert(out@[i as int] == (k, v));
                assert(m[i as int] == (k@, v@));
                assert(self.entries_view()[i as int] == (self.entries@[i as int].0@,
                self.entries@[i as int].1@));
                assert(k@ == self.entries@[i as int].0@);
                assert forall|j: int| 0 <= j < i + 1 implies #[trigger] m[j]
                    == self.entries_view()[j] by {
                    if j < i {
                        assert(m[j] == mp[j]);
                        assert(mp[j] == self.entries_view().take(i as int)[j]);
                    }
                }
                assert(m =~= self.entries_view().take(i + 1));
            }
            i = i + 1;
        }
        proof {
            assert(self.entries_view().take(n as int) =~= self.entries_view());
        }
        out
    }
}

} // verus!
