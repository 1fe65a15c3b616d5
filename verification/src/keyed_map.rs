//! Small association maps and sets keyed by values with an exact equality.
//!
//! Entries keep insertion order and never hold two entries whose keys have the
//! same view; the map's view is the finite map from key views to values.

use vstd::prelude::*;

verus! {

/// A key whose equality is decided by its view.
pub trait LookupKey: View + Sized {
    fn key_eq(&self, other: &Self) -> (b: bool)
        ensures
            b == (self@ == other@),
    ;

    fn key_clone(&self) -> (c: Self)
        ensures
            c@ == self@,
    ;
}

impl LookupKey for String {
    fn key_eq(&self, other: &Self) -> (b: bool) {
        *self == *other
    }

    fn key_clone(&self) -> (c: Self) {
        self.clone()
    }
}

impl LookupKey for i32 {
    fn key_eq(&self, other: &Self) -> (b: bool) {
        *self == *other
    }

    fn key_clone(&self) -> (c: Self) {
        *self
    }
}

/// No two entries share a key view.
pub open spec fn keys_unique<K: View, V>(s: Seq<(K, V)>) -> bool {
    forall|i: int, j: int|
        #![trigger s[i], s[j]]
        0 <= i < s.len() && 0 <= j < s.len() && i != j ==> s[i].0@ != s[j].0@
}

/// The map described by a sequence of entries (later entries win).
pub open spec fn entries_map<K: View, V>(s: Seq<(K, V)>) -> Map<K::V, V>
    decreases s.len(),
{
    if s.len() == 0 {
        Map::empty()
    } else {
        entries_map(s.drop_last()).insert(s.last().0@, s.last().1)
    }
}

/// Some entry of `s` has key view `k`.
pub open spec fn has_key<K: View, V>(s: Seq<(K, V)>, k: K::V) -> bool {
    exists|i: int| 0 <= i < s.len() && (#[trigger] s[i]).0@ == k
}

pub proof fn lemma_entries_map_dom<K: View, V>(s: Seq<(K, V)>)
    ensures
        entries_map(s).dom().finite(),
        forall|k: K::V| #[trigger] entries_map(s).contains_key(k) <==> has_key(s, k),
    decreases s.len(),
{
    if s.len() > 0 {
        let t = s.drop_last();
        lemma_entries_map_dom(t);
        assert forall|k: K::V| #[trigger] entries_map(s).contains_key(k) <==> has_key(s, k) by {
            if entries_map(s).contains_key(k) {
                if k == s.last().0@ {
                    assert(s[s.len() - 1].0@ == k);
                } else {
                    assert(has_key(t, k));
                    let i = choose|i: int| 0 <= i < t.len() && (#[trigger] t[i]).0@ == k;
                    assert(s[i] == t[i]);
                }
            }
            if has_key(s, k) {
                let i = choose|i: int| 0 <= i < s.len() && (#[trigger] s[i]).0@ == k;
                if i < s.len() - 1 {
                    assert(t[i] == s[i]);
                    assert(has_key(t, k));
                }
            }
        }
    }
}

pub proof fn lemma_entries_map_index<K: View, V>(s: Seq<(K, V)>, i: int)
    requires
        keys_unique(s),
        0 <= i < s.len(),
    ensures
        entries_map(s).contains_key(s[i].0@),
        entries_map(s)[s[i].0@] == s[i].1,
    decreases s.len(),
{
    let t = s.drop_last();
    if i < s.len() - 1 {
        assert(t[i] == s[i]);
        assert(keys_unique(t)) by {
            assert forall|a: int, b: int|
                #![trigger t[a], t[b]]
                0 <= a < t.len() && 0 <= b < t.len() && a != b implies t[a].0@ != t[b].0@ by {
                assert(s[a] == t[a] && s[b] == t[b]);
            }
        }
        lemma_entries_map_index(t, i);
        assert(s[i].0@ != s[s.len() - 1].0@);
    }
}

pub proof fn lemma_keys_unique_drop_last<K: View, V>(s: Seq<(K, V)>)
    requires
        keys_unique(s),
        s.len() > 0,
    ensures
        keys_unique(s.drop_last()),
        !has_key(s.drop_last(), s.last().0@),
{
    let t = s.drop_last();
    assert forall|a: int, b: int|
        #![trigger t[a], t[b]]
        0 <= a < t.len() && 0 <= b < t.len() && a != b implies t[a].0@ != t[b].0@ by {
        assert(s[a] == t[a] && s[b] == t[b]);
    }
    if has_key(t, s.last().0@) {
        let i = choose|i: int| 0 <= i < t.len() && (#[trigger] t[i]).0@ == s.last().0@;
        assert(s[i] == t[i]);
        assert(s[i].0@ != s[s.len() - 1].0@);
    }
}

pub proof fn lemma_entries_map_len<K: View, V>(s: Seq<(K, V)>)
    requires
        keys_unique(s),
    ensures
        entries_map(s).dom().finite(),
        entries_map(s).dom().len() == s.len(),
    decreases s.len(),
{
    lemma_entries_map_dom(s);
    if s.len() > 0 {
        let t = s.drop_last();
        lemma_keys_unique_drop_last(s);
        lemma_entries_map_len(t);
        lemma_entries_map_dom(t);
        assert(!entries_map(t).contains_key(s.last().0@));
    }
}

pub proof fn lemma_entries_map_update<K: View, V>(s: Seq<(K, V)>, i: int, e: (K, V))
    requires
        keys_unique(s),
        0 <= i < s.len(),
        e.0@ == s[i].0@,
    ensures
        keys_unique(s.update(i, e)),
        entries_map(s.update(i, e)) == entries_map(s).insert(e.0@, e.1),
    decreases s.len(),
{
    let u = s.update(i, e);
    assert(keys_unique(u)) by {
        assert forall|a: int, b: int|
            #![trigger u[a], u[b]]
            0 <= a < u.len() && 0 <= b < u.len() && a != b implies u[a].0@ != u[b].0@ by {
            assert(u[a].0@ == s[a].0@);
            assert(u[b].0@ == s[b].0@);
        }
    }
    let t = s.drop_last();
    lemma_keys_unique_drop_last(s);
    if i == s.len() - 1 {
        assert(u.drop_last() =~= t);
        assert(entries_map(u) =~= entries_map(s).insert(e.0@, e.1));
    } else {
        assert(u.drop_last() =~= t.update(i, e));
        assert(t[i] == s[i]);
        lemma_entries_map_update(t, i, e);
        assert(s[i].0@ != s[s.len() - 1].0@);
        assert(entries_map(u) =~= entries_map(s).insert(e.0@, e.1));
    }
}

pub proof fn lemma_entries_map_remove<K: View, V>(s: Seq<(K, V)>, i: int)
    requires
        keys_unique(s),
        0 <= i < s.len(),
    ensures
        keys_unique(s.remove(i)),
        entries_map(s.remove(i)) == entries_map(s).remove(s[i].0@),
    decreases s.len(),
{
    let r = s.remove(i);
    assert(keys_unique(r)) by {
        assert forall|a: int, b: int|
            #![trigger r[a], r[b]]
            0 <= a < r.len() && 0 <= b < r.len() && a != b implies r[a].0@ != r[b].0@ by {
            let a2 = if a < i { a } else { a + 1 };
            let b2 = if b < i { b } else { b + 1 };
            assert(r[a] == s[a2]);
            assert(r[b] == s[b2]);
        }
    }
    let t = s.drop_last();
    lemma_keys_unique_drop_last(s);
    lemma_entries_map_dom(t);
    if i == s.len() - 1 {
        assert(r =~= t);
        assert(entries_map(r) =~= entries_map(s).remove(s[i].0@));
    } else {
        assert(r.drop_last() =~= t.remove(i));
        assert(r.last() == s.last());
        assert(t[i] == s[i]);
        lemma_entries_map_remove(t, i);
        assert(s[i].0@ != s[s.len() - 1].0@);
        assert(entries_map(r) =~= entries_map(s).remove(s[i].0@));
    }
}

/// An insertion-ordered map with at most one entry per key view.
#[derive(Debug)]
pub struct KeyedMap<K: LookupKey, V> {
    entries: Vec<(K, V)>,
}

impl<K: LookupKey, V> View for KeyedMap<K, V> {
    type V = Map<K::V, V>;

    open spec fn view(&self) -> Map<K::V, V> {
        entries_map(self.pairs())
    }
}

impl<K: LookupKey, V> KeyedMap<K, V> {
    /// Every value of the type keeps its keys unique.
    #[verifier::type_invariant]
    pub closed spec fn unique(self) -> bool {
        keys_unique(self.entries@)
    }

    /// The entries in insertion order.
    pub closed spec fn pairs(self) -> Seq<(K, V)> {
        self.entries@
    }

    /// The map's entries never repeat a key.
    pub proof fn lemma_unique(self)
        requires
            self.unique(),
        ensures
            keys_unique(self.pairs()),
            self@.dom().finite(),
            self@.dom().len() == self.pairs().len(),
            forall|i: int|
                0 <= i < self.pairs().len() ==> #[trigger] self@.contains_key(self.pairs()[i].0@)
                    && self@[self.pairs()[i].0@] == self.pairs()[i].1,
            forall|k: K::V| #[trigger] self@.contains_key(k) <==> has_key(self.pairs(), k),
    {
        lemma_entries_map_len(self.entries@);
        lemma_entries_map_dom(self.entries@);
        assert forall|i: int| 0 <= i < self.pairs().len() implies #[trigger] self@.contains_key(
            self.pairs()[i].0@,
        ) && self@[self.pairs()[i].0@] == self.pairs()[i].1 by {
            lemma_entries_map_index(self.entries@, i);
        }
    }

    pub fn new() -> (m: Self)
        ensures
            m@ == Map::<K::V, V>::empty(),
            m.pairs().len() == 0,
    {
        KeyedMap { entries: Vec::new() }
    }

    pub fn len(&self) -> (n: usize)
        ensures
            n == self@.len(),
            n == self.pairs().len(),
    {
        proof {
            use_type_invariant(self);
            lemma_entries_map_len(self.entries@);
        }
        self.entries.len()
    }

    pub fn is_empty(&self) -> (b: bool)
        ensures
            b == (self@.len() == 0),
            b == (self@ == Map::<K::V, V>::empty()),
    {
        proof {
            use_type_invariant(self);
            lemma_entries_map_len(self.entries@);
            lemma_entries_map_dom(self.entries@);
            if self.entries@.len() == 0 {
                assert(self@ =~= Map::<K::V, V>::empty());
            } else {
                lemma_entries_map_index(self.entries@, 0);
            }
        }
        self.entries.len() == 0
    }

    /// Position of the entry with key view `k@`, if any.
    pub fn index_of(&self, k: &K) -> (r: Option<usize>)
        ensures
            match r {
                Some(i) => i < self.pairs().len() && self.pairs()[i as int].0@ == k@,
                None => !self@.contains_key(k@),
            },
    {
        proof {
            use_type_invariant(self);
            lemma_entries_map_dom(self.entries@);
        }
        let mut i: usize = 0;
        while i < self.entries.len()
            invariant
                i <= self.entries@.len(),
                forall|j: int| 0 <= j < i ==> (#[trigger] self.entries@[j]).0@ != k@,
            decreases self.entries@.len() - i,
        {
            if self.entries[i].0.key_eq(k) {
                return Some(i);
            }
            i = i + 1;
        }
        None
    }

    pub fn get(&self, k: &K) -> (r: Option<&V>)
        ensures
            match r {
                Some(v) => self@.contains_key(k@) && *v == self@[k@],
                None => !self@.contains_key(k@),
            },
    {
        match self.index_of(k) {
            Some(i) => {
                proof {
                    use_type_invariant(self);
                    lemma_entries_map_index(self.entries@, i as int);
                }
                Some(&self.entries[i].1)
            },
            None => None,
        }
    }

    pub fn contains_key(&self, k: &K) -> (b: bool)
        ensures
            b == self@.contains_key(k@),
    {
        self.get(k).is_some()
    }

    /// Key of the entry at position `i`.
    pub fn key_at(&self, i: usize) -> (k: &K)
        requires
            i < self.pairs().len(),
        ensures
            *k == self.pairs()[i as int].0,
    {
        &self.entries[i].0
    }

    /// Value of the entry at position `i`.
    pub fn value_at(&self, i: usize) -> (v: &V)
        requires
            i < self.pairs().len(),
        ensures
            *v == self.pairs()[i as int].1,
            self@.contains_key(self.pairs()[i as int].0@),
            self@[self.pairs()[i as int].0@] == *v,
    {
        proof {
            use_type_invariant(self);
            lemma_entries_map_index(self.entries@, i as int);
        }
        &self.entries[i].1
    }

    /// Inserts `v` under `k`. An entry whose key has the view `k@` is
    /// replaced where it stands; otherwise the new entry goes last.
    pub fn insert(&mut self, k: K, v: V)
        ensures
            final(self)@ == old(self)@.insert(k@, v),
            has_key(old(self).pairs(), k@) ==> {
                &&& final(self).pairs().len() == old(self).pairs().len()
                &&& forall|j: int|
                    0 <= j < old(self).pairs().len() ==> #[trigger] final(self).pairs()[j] == if old(
                        self,
                    ).pairs()[j].0@ == k@ {
                        (k, v)
                    } else {
                        old(self).pairs()[j]
                    }
            },
            !has_key(old(self).pairs(), k@) ==> final(self).pairs() == old(self).pairs().push((k, v)),
    {
        proof {
            use_type_invariant(&*self);
        }
        let idx = self.index_of(&k);
        let mut entries: Vec<(K, V)> = Vec::new();
        std::mem::swap(&mut entries, &mut self.entries);
        proof {
            lemma_entries_map_dom(entries@);
        }
        match idx {
            Some(i) => {
                let ghost e0 = entries@;
                let ghost kv = k@;
                entries.remove(i);
                entries.insert(i, (k, v));
                proof {
                    assert(entries@ =~= e0.update(i as int, entries@[i as int]));
                    lemma_entries_map_update(e0, i as int, entries@[i as int]);
                    assert forall|j: int| 0 <= j < e0.len() && j != i implies e0[j].0@ != kv by {
                        assert(e0[j].0@ != e0[i as int].0@);
                    }
                }
            },
            None => {
                let ghost e0 = entries@;
                entries.push((k, v));
                proof {
                    assert(entries@.drop_last() =~= e0);
                    assert forall|a: int, b: int|
                        #![trigger entries@[a], entries@[b]]
                        0 <= a < entries@.len() && 0 <= b < entries@.len() && a != b implies entries@[a].0@
                        != entries@[b].0@ by {
                        if a == e0.len() {
                            assert(entries@[b] == e0[b]);
                        } else if b == e0.len() {
                            assert(entries@[a] == e0[a]);
                        } else {
                            assert(entries@[a] == e0[a] && entries@[b] == e0[b]);
                        }
                    }
                }
            },
        }
        self.entries = entries;
    }

    pub fn remove(&mut self, k: &K) -> (r: Option<V>)
        ensures
            final(self)@ == old(self)@.remove(k@),
            match r {
                Some(v) => old(self)@.contains_key(k@) && v == old(self)@[k@],
                None => !old(self)@.contains_key(k@),
            },
    {
        proof {
            use_type_invariant(&*self);
        }
        match self.index_of(k) {
            Some(i) => {
                let mut entries: Vec<(K, V)> = Vec::new();
                std::mem::swap(&mut entries, &mut self.entries);
                let ghost e0 = entries@;
                proof {
                    lemma_entries_map_index(e0, i as int);
                    lemma_entries_map_remove(e0, i as int);
                }
                let (_, v) = entries.remove(i);
                self.entries = entries;
                Some(v)
            },
            None => {
                proof {
                    assert(old(self)@.remove(k@) =~= old(self)@);
                }
                None
            },
        }
    }

    /// Removes the entry at position `i`, keeping the others in order.
    pub fn remove_at(&mut self, i: usize) -> (e: (K, V))
        requires
            i < old(self).pairs().len(),
        ensures
            e == old(self).pairs()[i as int],
            final(self).pairs() == old(self).pairs().remove(i as int),
            final(self)@ == old(self)@.remove(e.0@),
    {
        proof {
            use_type_invariant(&*self);
        }
        let mut entries: Vec<(K, V)> = Vec::new();
        std::mem::swap(&mut entries, &mut self.entries);
        proof {
            lemma_entries_map_remove(entries@, i as int);
        }
        let e = entries.remove(i);
        self.entries = entries;
        e
    }

    /// Replaces the value of the entry at position `i`, keeping its key and
    /// position; returns the old value.
    pub fn replace_value_at(&mut self, i: usize, v: V) -> (old_v: V)
        requires
            i < old(self).pairs().len(),
        ensures
            old_v == old(self).pairs()[i as int].1,
            final(self).pairs().len() == old(self).pairs().len(),
            final(self).pairs()[i as int].0 == old(self).pairs()[i as int].0,
            final(self).pairs()[i as int].1 == v,
            forall|j: int|
                0 <= j < old(self).pairs().len() && j != i ==> #[trigger] final(self).pairs()[j]
                    == old(self).pairs()[j],
            final(self)@ == old(self)@.insert(old(self).pairs()[i as int].0@, v),
    {
        proof {
            use_type_invariant(&*self);
        }
        let mut entries: Vec<(K, V)> = Vec::new();
        std::mem::swap(&mut entries, &mut self.entries);
        let ghost e0 = entries@;
        let (k, old_v) = entries.remove(i);
        entries.insert(i, (k, v));
        proof {
            assert(entries@ =~= e0.update(i as int, entries@[i as int]));
            lemma_entries_map_update(e0, i as int, entries@[i as int]);
        }
        self.entries = entries;
        old_v
    }

    pub fn clear(&mut self)
        ensures
            final(self)@ == Map::<K::V, V>::empty(),
            final(self).pairs().len() == 0,
    {
        self.entries = Vec::new();
    }
}

impl<K: LookupKey, V: Clone> Clone for KeyedMap<K, V> {
    fn clone(&self) -> (c: Self)
        ensures
            c.pairs().len() == self.pairs().len(),
            forall|i: int|
                0 <= i < self.pairs().len() ==> (#[trigger] c.pairs()[i]).0@ == self.pairs()[i].0@
                    && cloned::<V>(self.pairs()[i].1, c.pairs()[i].1),
    {
        proof {
            use_type_invariant(self);
        }
        let mut entries: Vec<(K, V)> = Vec::new();
        let mut i: usize = 0;
        while i < self.entries.len()
            invariant
                i <= self.entries@.len(),
                entries@.len() == i,
                keys_unique(self.entries@),
                forall|j: int|
                    0 <= j < i ==> (#[trigger] entries@[j]).0@ == self.entries@[j].0@ && cloned::<V>(
                        self.entries@[j].1,
                        entries@[j].1,
                    ),
            decreases self.entries@.len() - i,
        {
            let k = self.entries[i].0.key_clone();
            let v = self.entries[i].1.clone();
            entries.push((k, v));
            i = i + 1;
        }
        proof {
            assert forall|a: int, b: int|
                #![trigger entries@[a], entries@[b]]
                0 <= a < entries@.len() && 0 <= b < entries@.len() && a != b implies entries@[a].0@
                != entries@[b].0@ by {
                assert(self.entries@[a].0@ != self.entries@[b].0@);
            }
        }
        KeyedMap { entries }
    }
}

/// An insertion-ordered set with at most one element per view.
#[derive(Debug)]
pub struct KeyedSet<K: LookupKey> {
    map: KeyedMap<K, ()>,
}

impl<K: LookupKey> View for KeyedSet<K> {
    type V = Set<K::V>;

    open spec fn view(&self) -> Set<K::V> {
        self.members()@.dom()
    }
}

impl<K: LookupKey> KeyedSet<K> {
    pub closed spec fn members(self) -> KeyedMap<K, ()> {
        self.map
    }

    pub fn new() -> (s: Self)
        ensures
            s@ == Set::<K::V>::empty(),
    {
        KeyedSet { map: KeyedMap::new() }
    }

    pub fn len(&self) -> (n: usize)
        ensures
            n == self@.len(),
            self@.finite(),
    {
        proof {
            use_type_invariant(&self.map);
            self.map.lemma_unique();
        }
        self.map.len()
    }

    pub fn is_empty(&self) -> (b: bool)
        ensures
            b == (self@ == Set::<K::V>::empty()),
    {
        let b = self.map.is_empty();
        proof {
            if !b {
                if self@ == Set::<K::V>::empty() {
                    assert(self.map@ =~= Map::<K::V, ()>::empty());
                }
            } else {
                assert(self@ =~= Set::<K::V>::empty());
            }
        }
        b
    }

    pub fn contains(&self, k: &K) -> (b: bool)
        ensures
            b == self@.contains(k@),
    {
        self.map.contains_key(k)
    }

    pub fn insert(&mut self, k: K)
        ensures
            final(self)@ == old(self)@.insert(k@),
    {
        self.map.insert(k, ());
        proof {
            assert(self@ =~= old(self)@.insert(k@));
        }
    }

    pub fn remove(&mut self, k: &K)
        ensures
            final(self)@ == old(self)@.remove(k@),
    {
        let _ = self.map.remove(k);
        proof {
            assert(self@ =~= old(self)@.remove(k@));
        }
    }

    pub fn clear(&mut self)
        ensures
            final(self)@ == Set::<K::V>::empty(),
    {
        self.map.clear();
        proof {
            assert(self@ =~= Set::<K::V>::empty());
        }
    }

    /// Element at position `i` in insertion order.
    pub fn element_at(&self, i: usize) -> (k: &K)
        requires
            i < self.members().pairs().len(),
        ensures
            self@.contains(k@),
    {
        let _ = self.map.value_at(i);
        self.map.key_at(i)
    }
}

impl<K: LookupKey> Clone for KeyedSet<K> {
    fn clone(&self) -> (c: Self)
        ensures
            c@ == self@,
    {
        let map = self.map.clone();
        proof {
            use_type_invariant(&self.map);
            use_type_invariant(&map);
            self.map.lemma_unique();
            map.lemma_unique();
            assert forall|k: K::V| map@.contains_key(k) <==> self.map@.contains_key(k) by {
                if map@.contains_key(k) {
                    let i = choose|i: int| 0 <= i < map.pairs().len() && (#[trigger] map.pairs()[i]).0@ == k;
                    assert(self.map.pairs()[i].0@ == k);
                    assert(has_key(self.map.pairs(), k));
                }
                if self.map@.contains_key(k) {
                    let i = choose|i: int|
                        0 <= i < self.map.pairs().len() && (#[trigger] self.map.pairs()[i]).0@ == k;
                    assert(map.pairs()[i].0@ == k);
                    assert(has_key(map.pairs(), k));
                }
            }
            assert(map@.dom() =~= self.map@.dom());
        }
        KeyedSet { map }
    }
}

} // verus!
