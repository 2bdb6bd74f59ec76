//! Records kept under string keys, one record per key, as the JSON files of the local store
//! hold them. The model is a map from key to record; the stored order is the order in which
//! the records are listed before sorting.
use vstd::prelude::*;
use vstd::seq_lib::*;

verus! {

/// Record types whose copies have the same content.
pub trait Duplicate: View + Sized {
    fn duplicate(&self) -> (r: Self)
        ensures
            r@ == self@;
}

/// Contents of a list of records, by view.
pub open spec fn seq_views<T: View>(s: Seq<T>) -> Seq<T::V> {
    Seq::new(s.len(), |i: int| s[i]@)
}

/// No key occurs twice.
pub open spec fn keys_distinct<V>(s: Seq<(Seq<char>, V)>) -> bool {
    forall|i: int, j: int| 0 <= i < j < s.len() ==> s[i].0 != s[j].0
}

/// The map that inserting the entries in order builds: a later entry wins over an earlier
/// one with the same key.
pub open spec fn map_of<V>(s: Seq<(Seq<char>, V)>) -> Map<Seq<char>, V>
    decreases s.len(),
{
    if s.len() == 0 {
        Map::empty()
    } else {
        map_of(s.drop_last()).insert(s.last().0, s.last().1)
    }
}

pub proof fn lemma_map_of_contains<V>(s: Seq<(Seq<char>, V)>, k: Seq<char>)
    ensures
        map_of(s).contains_key(k) <==> exists|i: int| 0 <= i < s.len() && #[trigger] s[i].0 == k,
    decreases s.len(),
{
    if s.len() > 0 {
        lemma_map_of_contains(s.drop_last(), k);
        if map_of(s.drop_last()).contains_key(k) {
            let i = choose|i: int| 0 <= i < s.drop_last().len() && #[trigger] s.drop_last()[i].0 == k;
            assert(s[i].0 == k);
        }
        if exists|i: int| 0 <= i < s.len() && #[trigger] s[i].0 == k {
            let i = choose|i: int| 0 <= i < s.len() && #[trigger] s[i].0 == k;
            if i < s.len() - 1 {
                assert(s.drop_last()[i].0 == k);
            }
        }
    }
}

/// The last entry with a key gives its value, whether or not keys repeat.
pub proof fn lemma_map_of_last<V>(s: Seq<(Seq<char>, V)>, i: int)
    requires
        0 <= i < s.len(),
        forall|j: int| i < j < s.len() ==> #[trigger] s[j].0 != s[i].0,
    ensures
        map_of(s).contains_key(s[i].0),
        map_of(s)[s[i].0] == s[i].1,
    decreases s.len(),
{
    if i < s.len() - 1 {
        assert(s.last().0 != s[i].0);
        assert forall|j: int| i < j < s.drop_last().len() implies #[trigger] s.drop_last()[j].0 != s.drop_last()[i].0 by {
            assert(s.drop_last()[j] == s[j]);
        }
        lemma_map_of_last(s.drop_last(), i);
        assert(s.drop_last()[i] == s[i]);
    }
}

pub proof fn lemma_map_of_index<V>(s: Seq<(Seq<char>, V)>, i: int)
    requires
        keys_distinct(s),
        0 <= i < s.len(),
    ensures
        map_of(s).contains_key(s[i].0),
        map_of(s)[s[i].0] == s[i].1,
    decreases s.len(),
{
    if i < s.len() - 1 {
        lemma_map_of_index(s.drop_last(), i);
        assert(s.drop_last()[i] == s[i]);
    }
}

pub proof fn lemma_map_of_update<V>(s: Seq<(Seq<char>, V)>, i: int, v: V)
    requires
        keys_distinct(s),
        0 <= i < s.len(),
    ensures
        map_of(s.update(i, (s[i].0, v))) == map_of(s).insert(s[i].0, v),
        keys_distinct(s.update(i, (s[i].0, v))),
    decreases s.len(),
{
    let t = s.update(i, (s[i].0, v));
    if i == s.len() - 1 {
        assert(t.drop_last() =~= s.drop_last());
        assert(map_of(t) =~= map_of(s).insert(s[i].0, v));
    } else {
        assert(t.drop_last() =~= s.drop_last().update(i, (s[i].0, v)));
        lemma_map_of_update(s.drop_last(), i, v);
        assert(s.drop_last()[i] == s[i]);
        assert(s.last().0 != s[i].0);
        assert(map_of(t) =~= map_of(s).insert(s[i].0, v));
    }
}

pub proof fn lemma_map_of_remove<V>(s: Seq<(Seq<char>, V)>, i: int)
    requires
        keys_distinct(s),
        0 <= i < s.len(),
    ensures
        map_of(s.remove(i)) == map_of(s).remove(s[i].0),
        keys_distinct(s.remove(i)),
    decreases s.len(),
{
    let t = s.remove(i);
    if i == s.len() - 1 {
        assert(t =~= s.drop_last());
        lemma_map_of_contains(s.drop_last(), s[i].0);
        if map_of(s.drop_last()).contains_key(s[i].0) {
            let j = choose|j: int| 0 <= j < s.drop_last().len() && #[trigger] s.drop_last()[j].0 == s[i].0;
            assert(s[j].0 == s[i].0);
        }
        assert(map_of(t) =~= map_of(s).remove(s[i].0));
    } else {
        assert(t.drop_last() =~= s.drop_last().remove(i));
        lemma_map_of_remove(s.drop_last(), i);
        assert(s.drop_last()[i] == s[i]);
        assert(t.last() == s.last());
        assert(s.last().0 != s[i].0);
        assert(map_of(t) =~= map_of(s).remove(s[i].0));
    }
}

pub proof fn lemma_map_of_push<V>(s: Seq<(Seq<char>, V)>, k: Seq<char>, v: V)
    requires
        keys_distinct(s),
        !map_of(s).contains_key(k),
    ensures
        map_of(s.push((k, v))) == map_of(s).insert(k, v),
        keys_distinct(s.push((k, v))),
{
    assert(s.push((k, v)).drop_last() =~= s);
    lemma_map_of_contains(s, k);
    assert forall|a: int, b: int| 0 <= a < b < s.push((k, v)).len() implies s.push((k, v))[a].0 != s.push((k, v))[b].0 by {
        if b == s.len() {
            assert(s.push((k, v))[a] == s[a]);
        }
    }
}

pub proof fn lemma_map_of_len<V>(s: Seq<(Seq<char>, V)>)
    requires
        keys_distinct(s),
    ensures
        map_of(s).dom().finite(),
        map_of(s).len() == s.len(),
    decreases s.len(),
{
    if s.len() > 0 {
        let t = s.drop_last();
        assert(keys_distinct(t));
        lemma_map_of_len(t);
        lemma_map_of_contains(t, s.last().0);
        if map_of(t).contains_key(s.last().0) {
            let j = choose|j: int| 0 <= j < t.len() && #[trigger] t[j].0 == s.last().0;
            assert(s[j].0 == s.last().0);
        }
    }
}

/// The records of the entries, in order.
pub open spec fn values_of<V>(s: Seq<(Seq<char>, V)>) -> Seq<V> {
    Seq::new(s.len(), |i: int| s[i].1)
}

/// Entries with distinct keys load whole: each key is found with its own record, and there
/// are as many records as entries. Writing a store out and reading it back loses nothing.
pub proof fn law_distinct_entries_load_whole<V>(s: Seq<(Seq<char>, V)>)
    requires
        keys_distinct(s),
    ensures
        map_of(s).len() == s.len(),
        forall|i: int| 0 <= i < s.len() ==> #[trigger] map_of(s).contains_key(s[i].0) && map_of(s)[s[i].0] == s[i].1,
        forall|k: Seq<char>| #[trigger] map_of(s).contains_key(k) ==> exists|i: int| 0 <= i < s.len() && s[i].0 == k,
{
    lemma_map_of_len(s);
    assert forall|i: int| 0 <= i < s.len() implies #[trigger] map_of(s).contains_key(s[i].0) && map_of(s)[s[i].0] == s[i].1 by {
        lemma_map_of_index(s, i);
    }
    assert forall|k: Seq<char>| #[trigger] map_of(s).contains_key(k) implies exists|i: int| 0 <= i < s.len() && s[i].0 == k by {
        lemma_map_of_contains(s, k);
    }
}

/// `listed` holds the records of `m`, each once: as many as there are keys, each stored
/// record among them, and nothing else.
pub open spec fn lists_map<V>(m: Map<Seq<char>, V>, listed: Seq<V>) -> bool {
    &&& listed.len() == m.len()
    &&& forall|k: Seq<char>| #[trigger] m.contains_key(k) ==> listed.contains(m[k])
    &&& forall|i: int| 0 <= i < listed.len() ==> stored_in(m, #[trigger] listed[i])
}

/// `x` is stored under some key of `m`.
pub open spec fn stored_in<V>(m: Map<Seq<char>, V>, x: V) -> bool {
    exists|k: Seq<char>| m.contains_key(k) && m[k] == x
}

/// Any reordering of the records of entries with distinct keys lists the map they load into.
pub proof fn law_listing_is_the_map<V>(s: Seq<(Seq<char>, V)>, listed: Seq<V>)
    requires
        keys_distinct(s),
        listed.to_multiset() == values_of(s).to_multiset(),
    ensures
        lists_map(map_of(s), listed),
{
    broadcast use vstd::seq_lib::group_to_multiset_ensures;
    let vs = values_of(s);
    lemma_map_of_len(s);
    assert(listed.to_multiset().len() == listed.len());
    assert(vs.to_multiset().len() == vs.len());
    assert forall|k: Seq<char>| #[trigger] map_of(s).contains_key(k) implies listed.contains(map_of(s)[k]) by {
        lemma_map_of_contains(s, k);
        let i = choose|i: int| 0 <= i < s.len() && #[trigger] s[i].0 == k;
        lemma_map_of_index(s, i);
        assert(vs[i] == s[i].1);
        assert(vs.contains(vs[i]));
        assert(vs.to_multiset().count(vs[i]) > 0);
        assert(listed.to_multiset().count(vs[i]) > 0);
    }
    assert forall|i: int| 0 <= i < listed.len() implies stored_in(map_of(s), #[trigger] listed[i]) by {
        assert(listed.contains(listed[i]));
        assert(listed.to_multiset().count(listed[i]) > 0);
        assert(vs.to_multiset().count(listed[i]) > 0);
        assert(vs.contains(listed[i]));
        let j = choose|j: int| 0 <= j < vs.len() && vs[j] == listed[i];
        lemma_map_of_index(s, j);
        assert(vs[j] == s[j].1);
        assert(map_of(s).contains_key(s[j].0) && map_of(s)[s[j].0] == listed[i]);
    }
    assert(listed.len() == vs.len());
    assert(vs.len() == s.len());
}

/// Records under distinct keys.
pub struct KeyedStore<T> {
    entries: Vec<(String, T)>,
}

pub open spec fn entry_views<T: View>(s: Seq<(String, T)>) -> Seq<(Seq<char>, T::V)> {
    Seq::new(s.len(), |i: int| (s[i].0@, s[i].1@))
}

impl<T: View> KeyedStore<T> {
    /// The entries in stored order.
    pub closed spec fn entries(&self) -> Seq<(Seq<char>, T::V)> {
        entry_views(self.entries@)
    }

    /// Every key occurs once.
    pub closed spec fn wf(&self) -> bool {
        keys_distinct(self.entries())
    }

    /// The record stored under each key.
    pub open spec fn map(&self) -> Map<Seq<char>, T::V> {
        map_of(self.entries())
    }

    /// The invariant of the store: no key occurs twice among the entries.
    pub proof fn lemma_keys_distinct(&self)
        requires
            self.wf(),
        ensures
            keys_distinct(self.entries()),
    {
    }

    /// An empty store.
    pub fn new() -> (r: Self)
        ensures
            r.wf(),
            r.map() == Map::<Seq<char>, T::V>::empty(),
            r.entries().len() == 0,
    {
        let r = KeyedStore { entries: Vec::new() };
        assert(r.entries() =~= Seq::<(Seq<char>, T::V)>::empty());
        r
    }

    /// Number of records.
    pub fn len(&self) -> (r: usize)
        requires
            self.wf(),
        ensures
            r == self.map().len(),
            r == self.entries().len(),
    {
        proof { lemma_map_of_len(self.entries()); }
        self.entries.len()
    }

    fn position(&self, key: &str) -> (r: Option<usize>)
        requires
            self.wf(),
        ensures
            match r {
                Some(i) => i < self.entries().len() && self.entries()[i as int].0 == key@,
                None => !self.map().contains_key(key@),
            },
    {
        let k = crate::text::chars_of(key);
        let mut i: usize = 0;
        while i < self.entries.len()
            invariant
                i <= self.entries@.len(),
                k@ == key@,
                forall|j: int| 0 <= j < i ==> #[trigger] self.entries()[j].0 != key@,
            decreases self.entries@.len() - i,
        {
            let here = crate::text::chars_of(self.entries[i].0.as_str());
            assert(self.entries()[i as int].0 == self.entries@[i as int].0@);
            if crate::text::seq_eq(here.as_slice(), k.as_slice()) {
                return Some(i);
            }
            i += 1;
        }
        proof {
            lemma_map_of_contains(self.entries(), key@);
        }
        None
    }

    /// The record under `key`.
    pub fn get(&self, key: &str) -> (r: Option<&T>)
        requires
            self.wf(),
        ensures
            match r {
                Some(t) => self.map().contains_key(key@) && t@ == self.map()[key@],
                None => !self.map().contains_key(key@),
            },
    {
        match self.position(key) {
            Some(i) => {
                proof { lemma_map_of_index(self.entries(), i as int); }
                Some(&self.entries[i].1)
            },
            None => None,
        }
    }

    /// Whether a record is stored under `key`.
    pub fn contains(&self, key: &str) -> (r: bool)
        requires
            self.wf(),
        ensures
            r == self.map().contains_key(key@),
    {
        self.get(key).is_some()
    }

    /// Stores `value` under `key`, replacing the record there in place.
    pub fn insert(&mut self, key: String, value: T)
        requires
            old(self).wf(),
        ensures
            final(self).wf(),
            final(self).map() == old(self).map().insert(key@, value@),
    {
        match self.position(key.as_str()) {
            Some(i) => {
                let ghost before = self.entries();
                proof { lemma_map_of_update(before, i as int, value@); }
                self.entries.set(i, (key, value));
                assert(self.entries() =~= before.update(i as int, (before[i as int].0, value@)));
            },
            None => {
                let ghost before = self.entries();
                let ghost kv = (key@, value@);
                proof { lemma_map_of_push(before, key@, value@); }
                self.entries.push((key, value));
                assert(self.entries() =~= before.push(kv));
            },
        }
    }

    /// Removes the record under `key` and returns it.
    pub fn remove(&mut self, key: &str) -> (r: Option<T>)
        requires
            old(self).wf(),
        ensures
            final(self).wf(),
            final(self).map() == old(self).map().remove(key@),
            match r {
                Some(t) => old(self).map().contains_key(key@) && t@ == old(self).map()[key@],
                None => !old(self).map().contains_key(key@),
            },
    {
        match self.position(key) {
            Some(i) => {
                let ghost before = self.entries();
                proof {
                    lemma_map_of_remove(before, i as int);
                    lemma_map_of_index(before, i as int);
                }
                let (_, t) = self.entries.remove(i);
                assert(self.entries() =~= before.remove(i as int));
                Some(t)
            },
            None => {
                assert(old(self).map().remove(key@) =~= old(self).map());
                None
            },
        }
    }

    /// Copies of the records, in stored order: one per key.
    pub fn values(&self) -> (r: Vec<T>)
        where T: Duplicate,
        requires
            self.wf(),
        ensures
            seq_views(r@) == values_of(self.entries()),
    {
        let mut r: Vec<T> = Vec::new();
        let mut i: usize = 0;
        while i < self.entries.len()
            invariant
                i <= self.entries@.len(),
                r@.len() == i,
                forall|j: int| 0 <= j < i ==> #[trigger] r@[j]@ == self.entries@[j].1@,
            decreases self.entries@.len() - i,
        {
            r.push(self.entries[i].1.duplicate());
            i += 1;
        }
        assert(seq_views(r@) =~= values_of(self.entries()));
        r
    }

    /// Copies of the entries, in stored order.
    pub fn pairs(&self) -> (r: Vec<(String, T)>)
        where T: Duplicate,
        requires
            self.wf(),
        ensures
            entry_views(r@) == self.entries(),
            keys_distinct(entry_views(r@)),
    {
        let mut r: Vec<(String, T)> = Vec::new();
        let mut i: usize = 0;
        while i < self.entries.len()
            invariant
                i <= self.entries@.len(),
                r@.len() == i,
                forall|j: int| 0 <= j < i ==> #[trigger] r@[j].0@ == self.entries@[j].0@ && r@[j].1@ == self.entries@[j].1@,
            decreases self.entries@.len() - i,
        {
            let k = self.entries[i].0.clone();
            r.push((k, self.entries[i].1.duplicate()));
            i += 1;
        }
        assert(entry_views(r@) =~= self.entries());
        r
    }

    /// Builds a store by inserting the entries in order; a later entry wins.
    pub fn from_entries(v: Vec<(String, T)>) -> (r: Self)
        ensures
            r.wf(),
            r.map() == map_of(entry_views(v@)),
    {
        let mut r = Self::new();
        let mut rest = v;
        let ghost all = entry_views(rest@);
        let ghost mut done: int = 0;
        assert(all.take(0) =~= Seq::<(Seq<char>, T::V)>::empty());
        while rest.len() > 0
            invariant
                r.wf(),
                0 <= done <= all.len(),
                all == entry_views(v@),
                entry_views(rest@) == all.skip(done),
                r.map() == map_of(all.take(done)),
            decreases rest@.len(),
        {
            let ghost before = rest@;
            assert(entry_views(before).len() == before.len());
            assert(done < all.len());
            let e = rest.remove(0);
            assert(before[0] == e);
            let (k, t) = e;
            assert(all[done] == (k@, t@)) by {
                assert(entry_views(before)[0] == all.skip(done)[0]);
            }
            r.insert(k, t);
            assert(all.take(done + 1).drop_last() =~= all.take(done));
            assert forall|q: int| 0 <= q < rest@.len() implies #[trigger] entry_views(rest@)[q] == all.skip(done + 1)[q] by {
                assert(rest@[q] == before[q + 1]);
                assert(entry_views(before)[q + 1] == all.skip(done)[q + 1]);
            }
            assert(entry_views(rest@) =~= all.skip(done + 1));
            proof { done = done + 1; }
        }
        assert(all.take(done) =~= all);
        r
    }
}

} // verus!
