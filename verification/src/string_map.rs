//! A map keyed by strings that keeps its keys in the order in which they
//! first came in.

use crate::text::str_eq;
use vstd::prelude::*;

verus! {

/// A map from strings to values of type `V`. No key occurs twice; a key that
/// is inserted again keeps its place and takes the new value.
#[derive(Debug)]
pub struct StringMap<V> {
    entries: Vec<(String, V)>,
}

/// Index of the first occurrence of `key` in `keys`, if there is one.
pub open spec fn position(keys: Seq<Seq<char>>, key: Seq<char>) -> Option<int>
    decreases keys.len(),
{
    if keys.len() == 0 {
        None
    } else {
        match position(keys.drop_last(), key) {
            Some(i) => Some(i),
            None => if keys.last() == key {
                Some(keys.len() - 1)
            } else {
                None
            },
        }
    }
}

/// What `position` finds is the first occurrence of the key, and it finds
/// nothing only where the key does not occur.
pub proof fn lemma_position(keys: Seq<Seq<char>>, key: Seq<char>)
    ensures
        match position(keys, key) {
            Some(i) => 0 <= i < keys.len() && keys[i] == key && forall|j: int|
                0 <= j < i ==> keys[j] != key,
            None => forall|j: int| 0 <= j < keys.len() ==> keys[j] != key,
        },
    decreases keys.len(),
{
    if keys.len() > 0 {
        lemma_position(keys.drop_last(), key);
        match position(keys.drop_last(), key) {
            Some(i) => {
                assert(keys.drop_last()[i] == keys[i]);
                assert forall|j: int| 0 <= j < i implies keys[j] != key by {
                    assert(keys.drop_last()[j] == keys[j]);
                }
            },
            None => {
                assert forall|j: int| 0 <= j < keys.len() - 1 implies keys[j] != key by {
                    assert(keys.drop_last()[j] == keys[j]);
                }
            },
        }
    }
}

impl<V> StringMap<V> {
    /// The keys, in the order in which they first came in.
    pub closed spec fn keys(&self) -> Seq<Seq<char>> {
        self.entries@.map_values(|e: (String, V)| e.0@)
    }

    /// The values, each at the place of its key.
    pub closed spec fn values(&self) -> Seq<V> {
        self.entries@.map_values(|e: (String, V)| e.1)
    }

    /// No key occurs twice.
    pub closed spec fn wf(&self) -> bool {
        forall|i: int, j: int|
            0 <= i < j < self.entries@.len() ==> (#[trigger] self.entries@[i]).0@
                != (#[trigger] self.entries@[j]).0@
    }

    /// The map that the keys and values stand for.
    pub open spec fn view(&self) -> Map<Seq<char>, V> {
        Map::new(
            |k: Seq<char>| position(self.keys(), k) is Some,
            |k: Seq<char>| self.values()[position(self.keys(), k).unwrap()],
        )
    }

    /// There are as many values as keys.
    pub proof fn lemma_lengths(&self)
        ensures
            self.keys().len() == self.values().len(),
    {
    }

    /// Keys and values go together, and in a well-formed map every key is
    /// found at its own place.
    pub proof fn lemma_entries(&self)
        requires
            self.wf(),
        ensures
            self.keys().len() == self.values().len(),
            self.keys().no_duplicates(),
            forall|i: int|
                0 <= i < self.keys().len() ==> position(self.keys(), #[trigger] self.keys()[i])
                    == Some(i),
            forall|i: int|
                0 <= i < self.keys().len() ==> self@.contains_key(#[trigger] self.keys()[i])
                    && self@[self.keys()[i]] == self.values()[i],
            forall|k: Seq<char>| self@.contains_key(k) <==> self.keys().contains(k),
    {
        let keys = self.keys();
        assert forall|i: int, j: int| 0 <= i < keys.len() && 0 <= j < keys.len() && i
            != j implies keys[i] != keys[j] by {
            if i < j {
                assert(self.entries@[i].0@ != self.entries@[j].0@);
            } else {
                assert(self.entries@[j].0@ != self.entries@[i].0@);
            }
        }
        assert forall|i: int| 0 <= i < keys.len() implies position(keys, #[trigger] keys[i])
            == Some(i) by {
            lemma_position(keys, keys[i]);
        }
        assert forall|k: Seq<char>| self@.contains_key(k) <==> keys.contains(k) by {
            lemma_position(keys, k);
        }
    }

    /// A map without entries.
    pub fn new() -> (m: Self)
        ensures
            m.wf(),
            m@ == Map::<Seq<char>, V>::empty(),
            m.keys() == Seq::<Seq<char>>::empty(),
    {
        let m = StringMap { entries: Vec::new() };
        assert(m.keys() =~= Seq::<Seq<char>>::empty());
        assert(m@ =~= Map::<Seq<char>, V>::empty());
        m
    }

    /// The number of entries.
    pub fn len(&self) -> (n: usize)
        ensures
            n == self.keys().len(),
    {
        self.entries.len()
    }

    /// Where `key` stands among the keys, if it is one of them.
    pub fn find(&self, key: &str) -> (r: Option<usize>)
        ensures
            match r {
                Some(i) => position(self.keys(), key@) == Some(i as int),
                None => position(self.keys(), key@) is None,
            },
    {
        let ghost keys = self.keys();
        let mut i: usize = 0;
        assert(keys.take(0) =~= Seq::<Seq<char>>::empty());
        while i < self.entries.len()
            invariant
                i <= self.entries.len(),
                keys == self.keys(),
                position(keys.take(i as int), key@) is None,
            decreases self.entries.len() - i,
        {
            proof {
                assert(keys.take(i as int + 1).drop_last() =~= keys.take(i as int));
                assert(keys.take(i as int + 1).last() == self.entries@[i as int].0@);
                lemma_position_extends(keys, key@, i as int + 1);
            }
            if str_eq(self.entries[i].0.as_str(), key) {
                return Some(i);
            }
            i += 1;
        }
        assert(keys.take(self.entries.len() as int) =~= keys);
        None
    }

    /// Whether `key` is one of the keys.
    pub fn contains_key(&self, key: &str) -> (r: bool)
        ensures
            r == self@.contains_key(key@),
    {
        self.find(key).is_some()
    }

    /// The value that `key` maps to, if it is one of the keys.
    pub fn get(&self, key: &str) -> (r: Option<&V>)
        ensures
            match r {
                Some(v) => self@.contains_key(key@) && *v == self@[key@],
                None => !self@.contains_key(key@),
            },
    {
        match self.find(key) {
            Some(i) => {
                proof {
                    lemma_position(self.keys(), key@);
                }
                Some(&self.entries[i].1)
            },
            None => None,
        }
    }

    /// The key at place `i`.
    pub fn key_at(&self, i: usize) -> (k: &String)
        requires
            i < self.keys().len(),
        ensures
            k@ == self.keys()[i as int],
    {
        &self.entries[i].0
    }

    /// The value at place `i`.
    pub fn value_at(&self, i: usize) -> (v: &V)
        requires
            i < self.keys().len(),
        ensures
            self.keys().len() == self.values().len(),
            *v == self.values()[i as int],
    {
        &self.entries[i].1
    }

    /// Maps `key` to `value`. A key that is already there keeps its place.
    pub fn insert(&mut self, key: String, value: V)
        requires
            old(self).wf(),
        ensures
            final(self).wf(),
            final(self)@ == old(self)@.insert(key@, value),
            final(self).keys() == if old(self)@.contains_key(key@) {
                old(self).keys()
            } else {
                old(self).keys().push(key@)
            },
    {
        let ghost old_keys = self.keys();
        let ghost old_values = self.values();
        let ghost k = key@;
        proof {
            lemma_position(old_keys, k);
        }
        match self.find(key.as_str()) {
            Some(i) => {
                self.entries.set(i, (key, value));
                proof {
                    assert(self.keys() =~= old_keys);
                    assert(self.values() =~= old_values.update(i as int, value));
                    assert forall|a: int, b: int| 0 <= a < b < self.entries@.len() implies (
                    #[trigger] self.entries@[a]).0@ != (#[trigger] self.entries@[b]).0@ by {
                        assert(self.keys()[a] == old_keys[a] && self.keys()[b] == old_keys[b]);
                        assert(old(self).entries@[a].0@ != old(self).entries@[b].0@);
                    }
                    assert forall|q: Seq<char>| #[trigger]
                        self@.contains_key(q) == old(self)@.insert(k, value).contains_key(q) by {
                        lemma_position(old_keys, q);
                    }
                    assert forall|q: Seq<char>| self@.contains_key(q) implies #[trigger] self@[q]
                        == old(self)@.insert(k, value)[q] by {
                        lemma_position(old_keys, q);
                    }
                    assert(self@ =~= old(self)@.insert(k, value));
                }
            },
            None => {
                self.entries.push((key, value));
                proof {
                    assert(self.keys() =~= old_keys.push(k));
                    assert(self.values() =~= old_values.push(value));
                    assert forall|a: int, b: int| 0 <= a < b < self.entries@.len() implies (
                    #[trigger] self.entries@[a]).0@ != (#[trigger] self.entries@[b]).0@ by {
                        assert(self.keys()[a] == old_keys[a]);
                        if b < old_keys.len() {
                            assert(self.keys()[b] == old_keys[b]);
                            assert(old(self).entries@[a].0@ != old(self).entries@[b].0@);
                        }
                    }
                    assert(self.keys().drop_last() =~= old_keys);
                    assert forall|q: Seq<char>| #[trigger]
                        self@.contains_key(q) == old(self)@.insert(k, value).contains_key(q) by {
                        lemma_position(old_keys, q);
                    }
                    assert forall|q: Seq<char>| self@.contains_key(q) implies #[trigger] self@[q]
                        == old(self)@.insert(k, value)[q] by {
                        lemma_position(old_keys, q);
                    }
                    assert(self@ =~= old(self)@.insert(k, value));
                }
            },
        }
    }
}

/// The map with every value replaced by its text.
pub open spec fn names_of(map: Map<Seq<char>, String>) -> Map<Seq<char>, Seq<char>> {
    map.map_values(|name: String| name@)
}

/// Some key of `map` maps to `value`.
pub open spec fn has_value(map: Map<Seq<char>, Seq<char>>, value: Seq<char>) -> bool {
    exists|key: Seq<char>| map.contains_key(key) && #[trigger] map[key] == value
}

/// No two keys of `map` map to the same value.
pub open spec fn injective(map: Map<Seq<char>, Seq<char>>) -> bool {
    forall|a: Seq<char>, b: Seq<char>|
        map.contains_key(a) && map.contains_key(b) && a != b ==> #[trigger] map[a]
            != #[trigger] map[b]
}

impl StringMap<String> {
    /// Whether some key maps to `value`.
    pub fn contains_value(&self, value: &str) -> (r: bool)
        requires
            self.wf(),
        ensures
            r == has_value(names_of(self@), value@),
    {
        let mut i: usize = 0;
        while i < self.entries.len()
            invariant
                self.wf(),
                i <= self.entries.len(),
                forall|j: int| 0 <= j < i ==> (#[trigger] self.entries@[j]).1@ != value@,
            decreases self.entries.len() - i,
        {
            if str_eq(self.entries[i].1.as_str(), value) {
                proof {
                    self.lemma_entries();
                    let key = self.keys()[i as int];
                    assert(self@.contains_key(key));
                    assert(self.values()[i as int] == self.entries@[i as int].1);
                    assert(names_of(self@).contains_key(key));
                    assert(names_of(self@)[key] == value@);
                }
                return true;
            }
            i += 1;
        }
        proof {
            if has_value(names_of(self@), value@) {
                let key = choose|key: Seq<char>|
                    names_of(self@).contains_key(key) && #[trigger] names_of(self@)[key] == value@;
                assert(self@.contains_key(key));
                self.lemma_entries();
                lemma_position(self.keys(), key);
                let j = position(self.keys(), key).unwrap();
                assert(self.values()[j] == self.entries@[j].1);
                assert(self.entries@[j].1@ != value@);
            }
        }
        false
    }
}

/// A key that is not found among the first `n` keys is found among all of
/// them exactly if it is found later.
proof fn lemma_position_extends(keys: Seq<Seq<char>>, key: Seq<char>, n: int)
    requires
        0 < n <= keys.len(),
        position(keys.take(n - 1), key) is None,
    ensures
        keys[n - 1] == key ==> position(keys, key) == Some(n - 1),
        keys[n - 1] != key ==> position(keys.take(n), key) is None,
    decreases keys.len() - n,
{
    assert(keys.take(n).drop_last() =~= keys.take(n - 1));
    if keys[n - 1] == key {
        assert(position(keys.take(n), key) == Some(n - 1));
        lemma_position_prefix(keys, key, n);
    }
}

/// What is found in a prefix is found at the same place in the whole.
proof fn lemma_position_prefix(keys: Seq<Seq<char>>, key: Seq<char>, n: int)
    requires
        0 <= n <= keys.len(),
        position(keys.take(n), key) is Some,
    ensures
        position(keys, key) == position(keys.take(n), key),
    decreases keys.len() - n,
{
    if n < keys.len() {
        assert(keys.take(n + 1).drop_last() =~= keys.take(n));
        lemma_position_prefix(keys, key, n + 1);
    } else {
        assert(keys.take(n) =~= keys);
    }
}

} // verus!
