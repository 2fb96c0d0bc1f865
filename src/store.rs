//! A keyed store: string keys, at most one value per key.
use vstd::prelude::*;

verus! {

/// The keys of a list of entries, as character sequences.
pub open spec fn keys_of<T>(entries: Seq<(String, T)>) -> Seq<Seq<char>> {
    entries.map_values(|e: (String, T)| e.0@)
}

/// The map that a list of entries with distinct keys stands for.
pub open spec fn map_of<T>(entries: Seq<(String, T)>) -> Map<Seq<char>, T> {
    Map::new(
        |k: Seq<char>| keys_of(entries).contains(k),
        |k: Seq<char>| entries[keys_of(entries).index_of(k)].1,
    )
}

/// In a list of distinct keys, the key at `i` maps to the value at `i`.
proof fn lemma_map_of_at<T>(entries: Seq<(String, T)>, i: int)
    requires
        keys_of(entries).no_duplicates(),
        0 <= i < entries.len(),
    ensures
        map_of(entries).contains_key(entries[i].0@),
        map_of(entries)[entries[i].0@] == entries[i].1,
{
    let keys = keys_of(entries);
    assert(keys[i] == entries[i].0@);
    assert(keys.contains(entries[i].0@));
    let j = keys.index_of(entries[i].0@);
    assert(keys[j] == keys[i]);
}

/// A store of values under string keys: the persistent keyed collection that
/// the recovery service keeps its guardians and its requests in.
pub struct KeyedStore<T> {
    entries: Vec<(String, T)>,
}

impl<T> View for KeyedStore<T> {
    type V = Map<Seq<char>, T>;

    closed spec fn view(&self) -> Map<Seq<char>, T> {
        map_of(self.entries@)
    }
}

impl<T> KeyedStore<T> {
    /// Keys are unique among the entries.
    pub closed spec fn wf(&self) -> bool {
        keys_of(self.entries@).no_duplicates()
    }

    /// An empty store.
    pub fn new() -> (r: Self)
        ensures
            r.wf(),
            r@ == Map::<Seq<char>, T>::empty(),
    {
        let r = KeyedStore { entries: Vec::new() };
        assert(r@ =~= Map::<Seq<char>, T>::empty());
        r
    }

    fn find(&self, key: &String) -> (r: Option<usize>)
        ensures
            match r {
                Some(i) => i < self.entries@.len() && self.entries@[i as int].0@ == key@,
                None => !keys_of(self.entries@).contains(key@),
            },
    {
        let mut i: usize = 0;
        while i < self.entries.len()
            invariant
                i <= self.entries@.len(),
                forall|j: int| 0 <= j < i ==> self.entries@[j].0@ != key@,
            decreases self.entries@.len() - i,
        {
            if self.entries[i].0 == *key {
                return Some(i);
            }
            i = i + 1;
        }
        proof {
            let keys = keys_of(self.entries@);
            assert forall|j: int| 0 <= j < keys.len() implies keys[j] != key@ by {
                assert(keys[j] == self.entries@[j].0@);
            }
        }
        None
    }

    /// Whether a value is stored under `key`.
    pub fn contains_key(&self, key: &String) -> (r: bool)
        requires
            self.wf(),
        ensures
            r == self@.contains_key(key@),
    {
        match self.find(key) {
            Some(i) => {
                proof {
                    lemma_map_of_at(self.entries@, i as int);
                }
                true
            },
            None => false,
        }
    }

    /// The value stored under `key`, if any.
    pub fn get(&self, key: &String) -> (r: Option<&T>)
        requires
            self.wf(),
        ensures
            match r {
                Some(v) => self@.contains_key(key@) && *v == self@[key@],
                None => !self@.contains_key(key@),
            },
    {
        match self.find(key) {
            Some(i) => {
                proof {
                    lemma_map_of_at(self.entries@, i as int);
                }
                Some(&self.entries[i].1)
            },
            None => None,
        }
    }

    /// Stores `value` under `key`, replacing what was there.
    pub fn insert(&mut self, key: String, value: T)
        requires
            old(self).wf(),
        ensures
            final(self).wf(),
            final(self)@ == old(self)@.insert(key@, value),
    {
        let ghost old_entries = self.entries@;
        let ghost k = key@;
        match self.find(&key) {
            Some(i) => {
                self.entries.set(i, (key, value));
                proof {
                    let new_entries = self.entries@;
                    assert(keys_of(new_entries) =~= keys_of(old_entries));
                    let expected = map_of(old_entries).insert(k, value);
                    assert forall|kk: Seq<char>|
                        #[trigger] map_of(new_entries).contains_key(kk) == expected.contains_key(kk)
                        && (map_of(new_entries).contains_key(kk)
                            ==> map_of(new_entries)[kk] == expected[kk])
                    by {
                        lemma_map_of_at(old_entries, i as int);
                        if map_of(new_entries).contains_key(kk) {
                            let j = keys_of(new_entries).index_of(kk);
                            lemma_map_of_at(new_entries, j);
                            if j != i {
                                lemma_map_of_at(old_entries, j);
                                assert(keys_of(old_entries)[j] != keys_of(old_entries)[i as int]);
                            }
                        }
                    }
                    assert(map_of(new_entries) =~= expected);
                }
            },
            None => {
                self.entries.push((key, value));
                proof {
                    let new_entries = self.entries@;
                    let n = old_entries.len() as int;
                    assert(keys_of(new_entries) =~= keys_of(old_entries).push(k));
                    assert(new_entries[n] == (key, value));
                    let expected = map_of(old_entries).insert(k, value);
                    assert forall|kk: Seq<char>|
                        #[trigger] map_of(new_entries).contains_key(kk) == expected.contains_key(kk)
                        && (map_of(new_entries).contains_key(kk)
                            ==> map_of(new_entries)[kk] == expected[kk])
                    by {
                        lemma_map_of_at(new_entries, n);
                        if map_of(new_entries).contains_key(kk) {
                            let j = keys_of(new_entries).index_of(kk);
                            lemma_map_of_at(new_entries, j);
                            if j != n {
                                lemma_map_of_at(old_entries, j);
                                assert(new_entries[j] == old_entries[j]);
                            }
                        }
                        if map_of(old_entries).contains_key(kk) {
                            let j = keys_of(old_entries).index_of(kk);
                            assert(keys_of(new_entries)[j] == kk);
                        }
                    }
                    assert(map_of(new_entries) =~= expected);
                }
            },
        }
    }

    /// Takes the value stored under `key` out of the store, if any.
    pub fn remove(&mut self, key: &String) -> (r: Option<T>)
        requires
            old(self).wf(),
        ensures
            final(self).wf(),
            final(self)@ == old(self)@.remove(key@),
            match r {
                Some(v) => old(self)@.contains_key(key@) && v == old(self)@[key@],
                None => !old(self)@.contains_key(key@),
            },
    {
        let ghost old_entries = self.entries@;
        let ghost k = key@;
        match self.find(key) {
            Some(i) => {
                proof {
                    lemma_map_of_at(old_entries, i as int);
                }
                let (_, v) = self.entries.remove(i);
                proof {
                    let new_entries = self.entries@;
                    let ok = keys_of(old_entries);
                    old_entries.remove_ensures(i as int);
                    assert(keys_of(new_entries) =~= ok.remove(i as int));
                    ok.remove_ensures(i as int);
                    let expected = map_of(old_entries).remove(k);
                    assert forall|a: int, b: int|
                        0 <= a < keys_of(new_entries).len() && 0 <= b < keys_of(new_entries).len()
                        && a != b implies keys_of(new_entries)[a] != keys_of(new_entries)[b]
                    by {
                        let a2 = if a < i { a } else { a + 1 };
                        let b2 = if b < i { b } else { b + 1 };
                        assert(keys_of(new_entries)[a] == ok[a2]);
                        assert(keys_of(new_entries)[b] == ok[b2]);
                    }
                    assert forall|kk: Seq<char>|
                        #[trigger] map_of(new_entries).contains_key(kk) == expected.contains_key(kk)
                        && (map_of(new_entries).contains_key(kk)
                            ==> map_of(new_entries)[kk] == expected[kk])
                    by {
                        assert(ok[i as int] == k);
                        if map_of(new_entries).contains_key(kk) {
                            let j = keys_of(new_entries).index_of(kk);
                            lemma_map_of_at(new_entries, j);
                            let j2 = if j < i { j } else { j + 1 };
                            assert(new_entries[j] == old_entries[j2]);
                            assert(ok[j2] == kk);
                            assert(j2 != i);
                            assert(kk != k);
                            lemma_map_of_at(old_entries, j2);
                        }
                        if expected.contains_key(kk) {
                            let j = ok.index_of(kk);
                            assert(ok.contains(kk));
                            assert(ok[j] == kk);
                            assert(j != i);
                            let j1 = if j < i { j } else { j - 1 };
                            assert(keys_of(new_entries)[j1] == kk);
                        }
                    }
                    assert(map_of(new_entries) =~= expected);
                }
                Some(v)
            },
            None => {
                proof {
                    assert(map_of(old_entries).remove(k) =~= map_of(old_entries));
                }
                None
            },
        }
    }
}

} // verus!
