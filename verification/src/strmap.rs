//! A map with string keys.

use vstd::prelude::*;

use crate::text::str_eq;

verus! {

/// The map that a list of pairs stands for, where no key occurs twice.
pub open spec fn map_of<X>(p: Seq<(Seq<char>, X)>) -> Map<Seq<char>, X>
    decreases p.len(),
{
    if p.len() == 0 {
        Map::empty()
    } else {
        map_of(p.drop_last()).insert(p.last().0, p.last().1)
    }
}

/// No key occurs twice in the list.
pub open spec fn distinct_keys<X>(p: Seq<(Seq<char>, X)>) -> bool {
    forall|i: int, j: int| 0 <= i < j < p.len() ==> (#[trigger] p[i]).0 != (#[trigger] p[j]).0
}

/// `k` is the key of one of the pairs.
pub open spec fn has_key<X>(p: Seq<(Seq<char>, X)>, k: Seq<char>) -> bool {
    exists|i: int| 0 <= i < p.len() && (#[trigger] p[i]).0 == k
}

/// The map of a list of pairs with distinct keys holds exactly those pairs.
pub proof fn lemma_map_of<X>(p: Seq<(Seq<char>, X)>)
    requires
        distinct_keys(p),
    ensures
        forall|k: Seq<char>| #[trigger] map_of(p).dom().contains(k) <==> has_key(p, k),
        forall|i: int|
            0 <= i < p.len() ==> map_of(p).dom().contains((#[trigger] p[i]).0) && map_of(p)[p[i].0]
                == p[i].1,
        map_of(p).dom().finite(),
        map_of(p).dom().len() == p.len(),
    decreases p.len(),
{
    if p.len() > 0 {
        let q = p.drop_last();
        lemma_map_of(q);
        assert forall|i: int| 0 <= i < p.len() implies map_of(p).dom().contains((#[trigger] p[i]).0)
            && map_of(p)[p[i].0] == p[i].1 by {
            if i < q.len() {
                assert(q[i] == p[i]);
            }
        }
        assert forall|k: Seq<char>| #[trigger] map_of(p).dom().contains(k) implies has_key(p, k) by {
            if k == p.last().0 {
                assert(p[p.len() - 1].0 == k);
            } else {
                assert(map_of(q).dom().contains(k));
                let i = choose|i: int| 0 <= i < q.len() && (#[trigger] q[i]).0 == k;
                assert(p[i].0 == k);
            }
        }
        if map_of(q).dom().contains(p.last().0) {
            let i = choose|i: int| 0 <= i < q.len() && (#[trigger] q[i]).0 == p.last().0;
            assert(p[i].0 == p[p.len() - 1].0);
        }
        assert(map_of(p).dom() =~= map_of(q).dom().insert(p.last().0));
    }
}

/// A map from strings to values, kept as a list of pairs in which no key occurs twice.
#[derive(Debug)]
pub struct StringMap<V: View> {
    entries: Vec<(String, V)>,
}

impl<V: View> StringMap<V> {
    /// The pairs, in the order in which their keys were first inserted.
    pub closed spec fn pairs(self) -> Seq<(Seq<char>, V::V)> {
        self.entries@.map_values(|e: (String, V)| (e.0@, e.1@))
    }

    /// The values, in the order of `pairs`.
    pub closed spec fn values(self) -> Seq<V> {
        self.entries@.map_values(|e: (String, V)| e.1)
    }

    #[verifier::type_invariant]
    spec fn inv(self) -> bool {
        distinct_keys(self.pairs())
    }
}

impl<V: View> View for StringMap<V> {
    type V = Map<Seq<char>, V::V>;

    closed spec fn view(&self) -> Map<Seq<char>, V::V> {
        map_of(self.pairs())
    }
}

impl<V: View> StringMap<V> {
    /// The empty map.
    pub fn new() -> (r: Self)
        ensures
            r@ == Map::<Seq<char>, V::V>::empty(),
            r.pairs() == Seq::<(Seq<char>, V::V)>::empty(),
    {
        let r = StringMap { entries: Vec::new() };
        assert(r.pairs() =~= Seq::empty());
        r
    }

    /// The number of keys.
    pub fn len(&self) -> (r: usize)
        ensures
            r == self@.dom().len(),
            r == self.pairs().len(),
            self@.dom().finite(),
            distinct_keys(self.pairs()),
            self@ == map_of(self.pairs()),
            self.values().len() == self.pairs().len(),
            forall|i: int|
                0 <= i < self.pairs().len() ==> (#[trigger] self.pairs()[i]).1 == self.values()[i]@,
    {
        proof {
            use_type_invariant(&*self);
            lemma_map_of(self.pairs());
        }
        self.entries.len()
    }

    /// Whether there is no key.
    pub fn is_empty(&self) -> (r: bool)
        ensures
            r == (self@ == Map::<Seq<char>, V::V>::empty()),
            r == (self.pairs().len() == 0),
    {
        proof {
            use_type_invariant(&*self);
            lemma_map_of(self.pairs());
            if self.pairs().len() == 0 {
                assert(self@ =~= Map::empty());
            } else {
                assert(self@.dom().contains(self.pairs()[0].0));
            }
        }
        self.entries.len() == 0
    }

    /// The key of the pair at `i`.
    pub fn key_at(&self, i: usize) -> (r: &String)
        requires
            i < self.pairs().len(),
        ensures
            r@ == self.pairs()[i as int].0,
    {
        &self.entries[i].0
    }

    /// The value of the pair at `i`.
    pub fn value_at(&self, i: usize) -> (r: &V)
        requires
            i < self.pairs().len(),
        ensures
            r@ == self.pairs()[i as int].1,
            *r == self.values()[i as int],
    {
        &self.entries[i].1
    }

    fn position(&self, key: &str) -> (r: Option<usize>)
        ensures
            match r {
                Some(i) => i < self.entries@.len() && self.pairs()[i as int].0 == key@,
                None => !has_key(self.pairs(), key@),
            },
    {
        let mut i: usize = 0;
        while i < self.entries.len()
            invariant
                i <= self.entries@.len(),
                forall|j: int| 0 <= j < i ==> (#[trigger] self.pairs()[j]).0 != key@,
            decreases self.entries@.len() - i,
        {
            if str_eq(self.entries[i].0.as_str(), key) {
                return Some(i);
            }
            i = i + 1;
        }
        None
    }

    /// The value under `key`.
    pub fn get(&self, key: &str) -> (r: Option<&V>)
        ensures
            match r {
                Some(v) => self@.dom().contains(key@) && v@ == self@[key@],
                None => !self@.dom().contains(key@),
            },
    {
        proof {
            use_type_invariant(&*self);
            lemma_map_of(self.pairs());
        }
        match self.position(key) {
            Some(i) => Some(&self.entries[i].1),
            None => None,
        }
    }

    /// Whether there is a value under `key`.
    pub fn contains_key(&self, key: &str) -> (r: bool)
        ensures
            r == self@.dom().contains(key@),
    {
        self.get(key).is_some()
    }

    /// Puts `value` under `key`, in place of what stood there.
    pub fn insert(&mut self, key: String, value: V)
        ensures
            final(self)@ == old(self)@.insert(key@, value@),
    {
        proof {
            use_type_invariant(&*self);
            lemma_map_of(self.pairs());
        }
        let ghost before = self.pairs();
        let at = self.position(key.as_str());
        let ghost k = key@;
        let ghost x = value@;
        let mut entries: Vec<(String, V)> = Vec::new();
        std::mem::swap(&mut entries, &mut self.entries);
        assert(entries@.map_values(|e: (String, V)| (e.0@, e.1@)) == before);
        match at {
            Some(i) => {
                entries[i].1 = value;
                assert(entries@.map_values(|e: (String, V)| (e.0@, e.1@)) =~= before.update(
                    i as int,
                    (k, x),
                ));
                proof {
                    let after = before.update(i as int, (k, x));
                    assert(distinct_keys(after)) by {
                        assert forall|a: int, b: int| 0 <= a < b < after.len() implies (
                        #[trigger] after[a]).0 != (#[trigger] after[b]).0 by {
                            assert(before[a].0 != before[b].0);
                        }
                    }
                    lemma_map_of(after);
                    lemma_update(before, i as int, x);
                }
            },
            None => {
                entries.push((key, value));
                assert(entries@.map_values(|e: (String, V)| (e.0@, e.1@)) =~= before.push((k, x)));
                proof {
                    let after = before.push((k, x));
                    assert(distinct_keys(after)) by {
                        assert forall|a: int, b: int| 0 <= a < b < after.len() implies (
                        #[trigger] after[a]).0 != (#[trigger] after[b]).0 by {
                            assert(before[a].0 == after[a].0);
                            if b < before.len() {
                                assert(before[b].0 == after[b].0);
                            }
                        }
                    }
                    assert(after.drop_last() =~= before);
                }
            },
        }
        self.entries = entries;
    }

    /// Takes out what stands under `key` and says whether there was something.
    pub fn remove(&mut self, key: &str) -> (r: bool)
        ensures
            final(self)@ == old(self)@.remove(key@),
            r == old(self)@.dom().contains(key@),
    {
        proof {
            use_type_invariant(&*self);
            lemma_map_of(self.pairs());
        }
        let ghost before = self.pairs();
        let at = self.position(key);
        match at {
            Some(i) => {
                let mut entries: Vec<(String, V)> = Vec::new();
                std::mem::swap(&mut entries, &mut self.entries);
                assert(entries@.map_values(|e: (String, V)| (e.0@, e.1@)) == before);
                let removed = entries.remove(i);
                assert(entries@.map_values(|e: (String, V)| (e.0@, e.1@)) =~= before.remove(
                    i as int,
                ));
                proof {
                    lemma_remove(before, i as int);
                }
                self.entries = entries;
                true
            },
            None => {
                assert(self@.remove(key@) =~= self@);
                false
            },
        }
    }

    /// Takes out the last pair.
    pub fn pop(&mut self) -> (r: Option<(String, V)>)
        ensures
            match r {
                Some(kv) => {
                    &&& old(self).pairs().len() > 0
                    &&& final(self).pairs() == old(self).pairs().drop_last()
                    &&& (kv.0@, kv.1@) == old(self).pairs().last()
                    &&& old(self)@.dom().contains(kv.0@)
                    &&& old(self)@[kv.0@] == kv.1@
                    &&& final(self)@ == old(self)@.remove(kv.0@)
                },
                None => old(self).pairs().len() == 0 && old(self)@ == Map::<
                    Seq<char>,
                    V::V,
                >::empty() && final(self)@ == old(self)@,
            },
    {
        proof {
            use_type_invariant(&*self);
            lemma_map_of(self.pairs());
        }
        let ghost before = self.pairs();
        let mut entries: Vec<(String, V)> = Vec::new();
        std::mem::swap(&mut entries, &mut self.entries);
        assert(entries@.map_values(|e: (String, V)| (e.0@, e.1@)) == before);
        let last = entries.pop();
        if last.is_some() {
            assert(entries@.map_values(|e: (String, V)| (e.0@, e.1@)) =~= before.drop_last());
            proof {
                lemma_remove(before, before.len() - 1);
                assert(before.remove(before.len() - 1) =~= before.drop_last());
                assert(before[before.len() - 1] == before.last());
            }
        } else {
            assert(entries@.map_values(|e: (String, V)| (e.0@, e.1@)) =~= before);
        }
        self.entries = entries;
        last
    }

    /// Takes out everything.
    pub fn clear(&mut self)
        ensures
            final(self)@ == Map::<Seq<char>, V::V>::empty(),
    {
        self.entries = Vec::new();
        assert(self.pairs() =~= Seq::empty());
    }
}

proof fn lemma_update<X>(p: Seq<(Seq<char>, X)>, i: int, x: X)
    requires
        distinct_keys(p),
        0 <= i < p.len(),
    ensures
        map_of(p.update(i, (p[i].0, x))) == map_of(p).insert(p[i].0, x),
{
    let q = p.update(i, (p[i].0, x));
    assert(distinct_keys(q)) by {
        assert forall|a: int, b: int| 0 <= a < b < q.len() implies (#[trigger] q[a]).0 != (
        #[trigger] q[b]).0 by {
            assert(p[a].0 != p[b].0);
        }
    }
    lemma_map_of(p);
    lemma_map_of(q);
    let m = map_of(p).insert(p[i].0, x);
    assert forall|k: Seq<char>| map_of(q).dom().contains(k) <==> m.dom().contains(k) by {
        if map_of(q).dom().contains(k) {
            let j = choose|j: int| 0 <= j < q.len() && (#[trigger] q[j]).0 == k;
            assert(p[j].0 == k);
        }
        if m.dom().contains(k) {
            if k == p[i].0 {
                assert(q[i].0 == k);
            } else {
                let j = choose|j: int| 0 <= j < p.len() && (#[trigger] p[j]).0 == k;
                assert(q[j].0 == k);
            }
        }
    }
    assert forall|k: Seq<char>| map_of(q).dom().contains(k) implies map_of(q)[k] == m[k] by {
        let j = choose|j: int| 0 <= j < q.len() && (#[trigger] q[j]).0 == k;
        assert(map_of(q)[q[j].0] == q[j].1);
        assert(map_of(p)[p[j].0] == p[j].1);
        if j != i {
            assert(p[j].0 == k);
            if j < i {
                assert(p[j].0 != p[i].0);
            } else {
                assert(p[i].0 != p[j].0);
            }
        }
    }
    assert(map_of(q) =~= m);
}

proof fn lemma_remove<X>(p: Seq<(Seq<char>, X)>, i: int)
    requires
        distinct_keys(p),
        0 <= i < p.len(),
    ensures
        distinct_keys(p.remove(i)),
        map_of(p.remove(i)) == map_of(p).remove(p[i].0),
{
    let q = p.remove(i);
    assert forall|a: int| 0 <= a < q.len() implies #[trigger] q[a] == (if a < i {
        p[a]
    } else {
        p[a + 1]
    }) by {}
    assert forall|a: int, b: int| 0 <= a < b < q.len() implies (#[trigger] q[a]).0 != (
    #[trigger] q[b]).0 by {
        let a1 = if a < i {
            a
        } else {
            a + 1
        };
        let b1 = if b < i {
            b
        } else {
            b + 1
        };
        assert(p[a1].0 != p[b1].0);
    }
    lemma_map_of(p);
    lemma_map_of(q);
    let m = map_of(p).remove(p[i].0);
    assert forall|k: Seq<char>| map_of(q).dom().contains(k) <==> m.dom().contains(k) by {
        if map_of(q).dom().contains(k) {
            let j = choose|j: int| 0 <= j < q.len() && (#[trigger] q[j]).0 == k;
            let j1 = if j < i {
                j
            } else {
                j + 1
            };
            assert(p[j1].0 == k);
            if j1 < i {
                assert(p[j1].0 != p[i].0);
            } else {
                assert(p[i].0 != p[j1].0);
            }
        }
        if m.dom().contains(k) {
            let j = choose|j: int| 0 <= j < p.len() && (#[trigger] p[j]).0 == k;
            let j0 = if j < i {
                j
            } else {
                j - 1
            };
            assert(q[j0].0 == k);
        }
    }
    assert forall|k: Seq<char>| map_of(q).dom().contains(k) implies map_of(q)[k] == m[k] by {
        let j = choose|j: int| 0 <= j < q.len() && (#[trigger] q[j]).0 == k;
        let j1 = if j < i {
            j
        } else {
            j + 1
        };
        assert(map_of(q)[q[j].0] == q[j].1);
        assert(map_of(p)[p[j1].0] == p[j1].1);
    }
    assert(map_of(q) =~= m);
}

impl<V: View + Clone> Clone for StringMap<V> {
    fn clone(&self) -> (r: Self)
        ensures
            r.pairs().len() == self.pairs().len(),
            r.values().len() == self.values().len(),
            forall|i: int|
                0 <= i < self.pairs().len() ==> (#[trigger] r.pairs()[i]).0 == self.pairs()[i].0
                    && cloned::<V>(self.values()[i], r.values()[i]) && r.pairs()[i].1
                    == r.values()[i]@ && self.pairs()[i].1 == self.values()[i]@,
            self@ == map_of(self.pairs()),
            r@ == map_of(r.pairs()),
    {
        proof {
            use_type_invariant(&*self);
        }
        let mut entries: Vec<(String, V)> = Vec::new();
        let mut i: usize = 0;
        while i < self.entries.len()
            invariant
                i <= self.entries@.len(),
                entries@.len() == i,
                forall|j: int|
                    0 <= j < i ==> (#[trigger] entries@[j]).0@ == self.entries@[j].0@ && cloned::<
                        V,
                    >(self.entries@[j].1, entries@[j].1),
            decreases self.entries@.len() - i,
        {
            let k: String = self.entries[i].0.clone();
            let v: V = self.entries[i].1.clone();
            entries.push((k, v));
            i = i + 1;
        }
        assert(distinct_keys(entries@.map_values(|e: (String, V)| (e.0@, e.1@)))) by {
            let q = entries@.map_values(|e: (String, V)| (e.0@, e.1@));
            assert forall|a: int, b: int| 0 <= a < b < q.len() implies (#[trigger] q[a]).0 != (
            #[trigger] q[b]).0 by {
                assert(self.pairs()[a].0 != self.pairs()[b].0);
                assert(entries@[a].0@ == self.entries@[a].0@);
                assert(entries@[b].0@ == self.entries@[b].0@);
            }
        }
        StringMap { entries }
    }
}

} // verus!
