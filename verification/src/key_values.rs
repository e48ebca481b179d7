//! An ordered collection of string keys and values in which no key occurs twice.

use vstd::prelude::*;

verus! {

/// The abstract content of a [`KeyValues`]: its entries, in order.
pub type EntrySeq = Seq<(Seq<char>, Seq<char>)>;

/// No key occurs twice among the entries.
pub open spec fn keys_distinct(s: EntrySeq) -> bool {
    forall|i: int, j: int|
        0 <= i < s.len() && 0 <= j < s.len() && i != j ==> #[trigger] s[i].0 != #[trigger] s[j].0
}

/// Some entry has key `k`.
pub open spec fn has_key(s: EntrySeq, k: Seq<char>) -> bool {
    exists|i: int| 0 <= i < s.len() && #[trigger] s[i].0 == k
}

/// The position of an entry with key `k` (meaningful only where `has_key(s, k)`).
pub open spec fn key_index(s: EntrySeq, k: Seq<char>) -> int {
    choose|i: int| 0 <= i < s.len() && #[trigger] s[i].0 == k
}

/// The entries read as a map from keys to values.
pub open spec fn as_map(s: EntrySeq) -> Map<Seq<char>, Seq<char>> {
    Map::new(|k: Seq<char>| has_key(s, k), |k: Seq<char>| s[key_index(s, k)].1)
}

/// In a sequence of distinct keys, the map holds each entry's value under its key.
pub proof fn lemma_as_map_entry(s: EntrySeq, j: int)
    requires
        keys_distinct(s),
        0 <= j < s.len(),
    ensures
        as_map(s).contains_key(s[j].0),
        as_map(s)[s[j].0] == s[j].1,
{
    let k = s[j].0;
    assert(has_key(s, k));
    let i = key_index(s, k);
    assert(s[i].0 == k);
}

/// Replacing the value of entry `i` is an insertion under its key.
pub proof fn lemma_as_map_update(s: EntrySeq, i: int, v: Seq<char>)
    requires
        keys_distinct(s),
        0 <= i < s.len(),
    ensures
        keys_distinct(s.update(i, (s[i].0, v))),
        as_map(s.update(i, (s[i].0, v))) == as_map(s).insert(s[i].0, v),
{
    let t = s.update(i, (s[i].0, v));
    assert(keys_distinct(t)) by {
        assert forall|a: int, b: int|
            0 <= a < t.len() && 0 <= b < t.len() && a != b implies #[trigger] t[a].0
            != #[trigger] t[b].0 by {
            assert(t[a].0 == s[a].0);
            assert(t[b].0 == s[b].0);
        }
    }
    let m = as_map(s).insert(s[i].0, v);
    assert forall|k: Seq<char>| #[trigger] as_map(t).contains_key(k) <==> m.contains_key(k) by {
        if has_key(t, k) {
            let j = choose|j: int| 0 <= j < t.len() && #[trigger] t[j].0 == k;
            assert(s[j].0 == k);
            assert(has_key(s, k));
        }
        if has_key(s, k) {
            let j = choose|j: int| 0 <= j < s.len() && #[trigger] s[j].0 == k;
            assert(t[j].0 == k);
            assert(has_key(t, k));
        }
        if k == s[i].0 {
            assert(t[i].0 == k);
        }
    }
    assert forall|k: Seq<char>| #[trigger] as_map(t).contains_key(k) implies as_map(t)[k]
        == m[k] by {
        let j = choose|j: int| 0 <= j < t.len() && #[trigger] t[j].0 == k;
        lemma_as_map_entry(t, j);
        assert(s[j].0 == k);
        lemma_as_map_entry(s, j);
    }
    assert(as_map(t) =~= m);
}

/// Appending an entry under a new key is an insertion.
pub proof fn lemma_as_map_push(s: EntrySeq, k: Seq<char>, v: Seq<char>)
    requires
        keys_distinct(s),
        !has_key(s, k),
    ensures
        keys_distinct(s.push((k, v))),
        as_map(s.push((k, v))) == as_map(s).insert(k, v),
{
    let t = s.push((k, v));
    assert(keys_distinct(t)) by {
        assert forall|a: int, b: int|
            0 <= a < t.len() && 0 <= b < t.len() && a != b implies #[trigger] t[a].0
            != #[trigger] t[b].0 by {
            if a < s.len() && b < s.len() {
                assert(t[a] == s[a]);
                assert(t[b] == s[b]);
            } else if a < s.len() {
                assert(t[a] == s[a]);
            } else {
                assert(t[b] == s[b]);
            }
        }
    }
    let m = as_map(s).insert(k, v);
    assert forall|k2: Seq<char>| #[trigger] as_map(t).contains_key(k2) <==> m.contains_key(k2) by {
        if has_key(t, k2) && k2 != k {
            let j = choose|j: int| 0 <= j < t.len() && #[trigger] t[j].0 == k2;
            assert(j < s.len());
            assert(s[j].0 == k2);
            assert(has_key(s, k2));
        }
        if has_key(s, k2) {
            let j = choose|j: int| 0 <= j < s.len() && #[trigger] s[j].0 == k2;
            assert(t[j].0 == k2);
            assert(has_key(t, k2));
        }
        assert(t[s.len() as int].0 == k);
    }
    assert forall|k2: Seq<char>| #[trigger] as_map(t).contains_key(k2) implies as_map(t)[k2]
        == m[k2] by {
        let j = choose|j: int| 0 <= j < t.len() && #[trigger] t[j].0 == k2;
        lemma_as_map_entry(t, j);
        if j < s.len() {
            assert(s[j] == t[j]);
            lemma_as_map_entry(s, j);
        }
    }
    assert(as_map(t) =~= m);
}

/// Removing entry `i` removes its key from the map.
pub proof fn lemma_as_map_remove(s: EntrySeq, i: int)
    requires
        keys_distinct(s),
        0 <= i < s.len(),
    ensures
        keys_distinct(s.remove(i)),
        as_map(s.remove(i)) == as_map(s).remove(s[i].0),
{
    let t = s.remove(i);
    let k = s[i].0;
    assert forall|a: int| 0 <= a < t.len() implies #[trigger] t[a] == s[if a < i {
        a
    } else {
        a + 1
    }] by {}
    assert(keys_distinct(t)) by {
        assert forall|a: int, b: int|
            0 <= a < t.len() && 0 <= b < t.len() && a != b implies #[trigger] t[a].0
            != #[trigger] t[b].0 by {
            let a2 = if a < i { a } else { a + 1 };
            let b2 = if b < i { b } else { b + 1 };
            assert(t[a] == s[a2]);
            assert(t[b] == s[b2]);
        }
    }
    let m = as_map(s).remove(k);
    assert forall|k2: Seq<char>| #[trigger] as_map(t).contains_key(k2) <==> m.contains_key(k2) by {
        if has_key(t, k2) {
            let j = choose|j: int| 0 <= j < t.len() && #[trigger] t[j].0 == k2;
            let j2 = if j < i { j } else { j + 1 };
            assert(t[j] == s[j2]);
            assert(s[j2].0 == k2);
            assert(has_key(s, k2));
            assert(k2 != k);
        }
        if has_key(s, k2) && k2 != k {
            let j = choose|j: int| 0 <= j < s.len() && #[trigger] s[j].0 == k2;
            assert(j != i);
            let j2 = if j < i { j } else { j - 1 };
            assert(t[j2] == s[j]);
            assert(t[j2].0 == k2);
            assert(has_key(t, k2));
        }
    }
    assert forall|k2: Seq<char>| #[trigger] as_map(t).contains_key(k2) implies as_map(t)[k2]
        == m[k2] by {
        let j = choose|j: int| 0 <= j < t.len() && #[trigger] t[j].0 == k2;
        lemma_as_map_entry(t, j);
        let j2 = if j < i { j } else { j + 1 };
        assert(t[j] == s[j2]);
        lemma_as_map_entry(s, j2);
    }
    assert(as_map(t) =~= m);
}

/// String keys mapped to string values, kept in insertion order, each key at most once.
#[derive(Debug)]
pub struct KeyValues {
    entries: Vec<(String, String)>,
}

impl View for KeyValues {
    type V = EntrySeq;

    closed spec fn view(&self) -> EntrySeq {
        self.entries@.map_values(|e: (String, String)| (e.0@, e.1@))
    }
}

impl KeyValues {
    /// Every value of this type holds each key at most once.
    #[verifier::type_invariant]
    pub open spec fn wf(&self) -> bool {
        keys_distinct(self@)
    }

    /// The entries read as a map from keys to values.
    pub open spec fn map(&self) -> Map<Seq<char>, Seq<char>> {
        as_map(self@)
    }

    /// An empty collection.
    pub fn new() -> (r: KeyValues)
        ensures
            r@ == Seq::<(Seq<char>, Seq<char>)>::empty(),
            r.map() == Map::<Seq<char>, Seq<char>>::empty(),
    {
        let r = KeyValues { entries: Vec::new() };
        assert(r@ =~= Seq::<(Seq<char>, Seq<char>)>::empty());
        assert(r.map() =~= Map::<Seq<char>, Seq<char>>::empty());
        r
    }

    /// The number of entries.
    pub fn len(&self) -> (n: usize)
        ensures
            n == self@.len(),
    {
        self.entries.len()
    }

    /// The key of entry `i`.
    pub fn key_at(&self, i: usize) -> (k: &String)
        requires
            i < self@.len(),
        ensures
            k@ == self@[i as int].0,
    {
        &self.entries[i].0
    }

    /// The value of entry `i`.
    pub fn value_at(&self, i: usize) -> (v: &String)
        requires
            i < self@.len(),
        ensures
            v@ == self@[i as int].1,
    {
        &self.entries[i].1
    }

    /// The position of the entry with key `key`, if there is one.
    pub fn position(&self, key: &str) -> (r: Option<usize>)
        ensures
            match r {
                Some(i) => i < self@.len() && self@[i as int].0 == key@,
                None => !has_key(self@, key@),
            },
    {
        let wanted: String = key.to_owned();
        let n = self.entries.len();
        let mut i: usize = 0;
        while i < n
            invariant
                n == self@.len(),
                i <= n,
                wanted@ == key@,
                forall|j: int| 0 <= j < i ==> self@[j].0 != key@,
            decreases n - i,
        {
            assert(self@[i as int].0 == self.entries@[i as int].0@);
            if self.entries[i].0 == wanted {
                return Some(i);
            }
            i = i + 1;
        }
        None
    }

    /// The value stored under `key`, if any.
    pub fn get(&self, key: &str) -> (r: Option<&String>)
        ensures
            r is Some <==> self.map().contains_key(key@),
            r matches Some(v) ==> v@ == self.map()[key@],
    {
        proof {
            use_type_invariant(self);
        }
        match self.position(key) {
            Some(i) => {
                proof {
                    lemma_as_map_entry(self@, i as int);
                }
                Some(&self.entries[i].1)
            },
            None => None,
        }
    }

    /// Whether some entry has key `key`.
    pub fn contains_key(&self, key: &str) -> (b: bool)
        ensures
            b == self.map().contains_key(key@),
    {
        proof {
            use_type_invariant(self);
        }
        match self.position(key) {
            Some(i) => {
                proof {
                    lemma_as_map_entry(self@, i as int);
                }
                true
            },
            None => false,
        }
    }

    /// Stores `value` under `key`, replacing and returning the value that was there.
    /// A new key goes after the existing entries; an existing one keeps its place.
    pub fn insert(&mut self, key: String, value: String) -> (r: Option<String>)
        ensures
            final(self).map() == old(self).map().insert(key@, value@),
            r is Some <==> old(self).map().contains_key(key@),
            r matches Some(v) ==> v@ == old(self).map()[key@],
            has_key(old(self)@, key@) ==> final(self)@ == old(self)@.update(
                key_index(old(self)@, key@),
                (key@, value@),
            ),
            !has_key(old(self)@, key@) ==> final(self)@ == old(self)@.push((key@, value@)),
    {
        proof {
            use_type_invariant(&*self);
        }
        let ghost s = self@;
        match self.position(key.as_str()) {
            Some(i) => {
                proof {
                    lemma_as_map_entry(s, i as int);
                    lemma_as_map_update(s, i as int, value@);
                    assert(s[key_index(s, key@)].0 == key@);
                }
                let old_value = self.entries[i].1.clone();
                let mut entries = Vec::new();
                std::mem::swap(&mut entries, &mut self.entries);
                entries.set(i, (key, value));
                assert(entries@.map_values(|e: (String, String)| (e.0@, e.1@)) =~= s.update(i as int, (s[i as int].0, value@)));
                self.entries = entries;
                assert(self@ =~= s.update(i as int, (s[i as int].0, value@)));
                Some(old_value)
            },
            None => {
                proof {
                    lemma_as_map_push(s, key@, value@);
                    assert(!as_map(s).contains_key(key@));
                }
                let mut entries = Vec::new();
                std::mem::swap(&mut entries, &mut self.entries);
                entries.push((key, value));
                assert(entries@.map_values(|e: (String, String)| (e.0@, e.1@)) =~= s.push((key@, value@)));
                self.entries = entries;
                assert(self@ =~= s.push((key@, value@)));
                None
            },
        }
    }

    /// Removes the entry with key `key` and returns its value, if there is one.
    /// The other entries keep their order.
    pub fn remove(&mut self, key: &str) -> (r: Option<String>)
        ensures
            final(self).map() == old(self).map().remove(key@),
            r is Some <==> old(self).map().contains_key(key@),
            r matches Some(v) ==> v@ == old(self).map()[key@],
            has_key(old(self)@, key@) ==> final(self)@ == old(self)@.remove(
                key_index(old(self)@, key@),
            ),
            !has_key(old(self)@, key@) ==> final(self)@ == old(self)@,
    {
        proof {
            use_type_invariant(&*self);
        }
        let ghost s = self@;
        match self.position(key) {
            Some(i) => {
                proof {
                    lemma_as_map_entry(s, i as int);
                    lemma_as_map_remove(s, i as int);
                    assert(s[key_index(s, key@)].0 == key@);
                }
                let mut entries = Vec::new();
                std::mem::swap(&mut entries, &mut self.entries);
                let (_k, v) = entries.remove(i);
                assert(entries@.map_values(|e: (String, String)| (e.0@, e.1@)) =~= s.remove(i as int));
                self.entries = entries;
                assert(self@ =~= s.remove(i as int));
                Some(v)
            },
            None => {
                proof {
                    assert(!as_map(s).contains_key(key@));
                    assert(as_map(s).remove(key@) =~= as_map(s));
                }
                None
            },
        }
    }

    /// Replaces the value of entry `i`, keeping its key and place.
    pub fn set_value_at(&mut self, i: usize, value: String)
        requires
            i < old(self)@.len(),
        ensures
            final(self)@ == old(self)@.update(i as int, (old(self)@[i as int].0, value@)),
            final(self).map() == old(self).map().insert(old(self)@[i as int].0, value@),
    {
        proof {
            use_type_invariant(&*self);
        }
        let ghost s = self@;
        proof {
            lemma_as_map_update(s, i as int, value@);
        }
        let key = self.entries[i].0.clone();
        let mut entries = Vec::new();
        std::mem::swap(&mut entries, &mut self.entries);
        entries.set(i, (key, value));
        assert(entries@.map_values(|e: (String, String)| (e.0@, e.1@)) =~= s.update(i as int, (s[i as int].0, value@)));
        self.entries = entries;
        assert(self@ =~= s.update(i as int, (s[i as int].0, value@)));
    }
}

/// `m` after inserting each pair of `pairs` in order (a later pair wins over an earlier one).
pub open spec fn insert_all(m: Map<Seq<char>, Seq<char>>, pairs: EntrySeq) -> Map<
    Seq<char>,
    Seq<char>,
>
    decreases pairs.len(),
{
    if pairs.len() == 0 {
        m
    } else {
        insert_all(m, pairs.drop_last()).insert(pairs.last().0, pairs.last().1)
    }
}

/// The view of a vector of string pairs.
pub open spec fn pairs_view(pairs: Seq<(String, String)>) -> EntrySeq {
    pairs.map_values(|e: (String, String)| (e.0@, e.1@))
}

impl KeyValues {
    /// The entries, in order.
    pub fn into_entries(self) -> (r: Vec<(String, String)>)
        ensures
            pairs_view(r@) == self@,
    {
        self.entries
    }

    /// Inserts each pair in order, as repeated [`KeyValues::insert`] does.
    pub fn insert_pairs(&mut self, pairs: Vec<(String, String)>)
        ensures
            final(self).map() == insert_all(old(self).map(), pairs_view(pairs@)),
    {
        let ghost start = self.map();
        let ghost input = pairs@;
        for pair in it: pairs.into_iter()
            invariant
                it.seq() == input,
                self.map() == insert_all(start, pairs_view(input.take(it.index() as int))),
        {
            let ghost i = it.index() as int;
            proof {
                assert(pairs_view(input.take(i + 1)).drop_last() =~= pairs_view(input.take(i)));
                assert(pairs_view(input.take(i + 1)).last() == (pair.0@, pair.1@));
            }
            let (k, v) = pair;
            self.insert(k, v);
        }
        proof {
            assert(input.take(input.len() as int) =~= input);
        }
    }
}

}
