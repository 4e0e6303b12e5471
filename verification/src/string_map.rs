//! A map keyed by strings that keeps its entries in the order in which
//! their keys were first inserted.

use crate::encoding::str_equal;
use vstd::prelude::*;

verus! {

/// The texts of a sequence of strings.
pub open spec fn texts(strings: Seq<String>) -> Seq<Seq<char>> {
    strings.map_values(|s: String| s@)
}

/// A map from strings to values of `V`. No key occurs twice, and an entry
/// keeps its place when its value is replaced.
#[derive(Debug)]
pub struct StringMap<V> {
    keys: Vec<String>,
    values: Vec<V>,
}

/// The map that distinct `keys` and their `values` stand for.
pub open spec fn as_map<V: View>(keys: Seq<Seq<char>>, values: Seq<V>) -> Map<Seq<char>, V::V> {
    Map::new(|key: Seq<char>| keys.contains(key), |key: Seq<char>| values[keys.index_of(key)]@)
}

/// A key at place `i` has the value at place `i`.
pub proof fn lemma_as_map_at<V: View>(keys: Seq<Seq<char>>, values: Seq<V>, i: int)
    requires
        keys.no_duplicates(),
        0 <= i < keys.len(),
    ensures
        keys.contains(keys[i]),
        keys.index_of(keys[i]) == i,
        as_map(keys, values).contains_key(keys[i]),
        as_map(keys, values)[keys[i]] == values[i]@,
{
}

/// A new value at place `i` is a new value for the key at place `i`.
pub proof fn lemma_as_map_update<V: View>(
    keys: Seq<Seq<char>>,
    values: Seq<V>,
    i: int,
    value: V,
)
    requires
        keys.no_duplicates(),
        keys.len() == values.len(),
        0 <= i < keys.len(),
    ensures
        as_map(keys, values.update(i, value)) == as_map(keys, values).insert(keys[i], value@),
{
    let before = as_map(keys, values);
    let after = as_map(keys, values.update(i, value));
    lemma_as_map_at(keys, values, i);
    assert forall|key: Seq<char>| after.contains_key(key) implies #[trigger] after[key]
        == before.insert(keys[i], value@)[key] by {
        let k = keys.index_of(key);
        assert(keys[k] == key);
    }
    assert(after =~= before.insert(keys[i], value@));
}

/// A new key with its value at the end is a new entry of the map.
pub proof fn lemma_as_map_push<V: View>(
    keys: Seq<Seq<char>>,
    values: Seq<V>,
    key: Seq<char>,
    value: V,
)
    requires
        keys.no_duplicates(),
        keys.len() == values.len(),
        !keys.contains(key),
    ensures
        keys.push(key).no_duplicates(),
        as_map(keys.push(key), values.push(value)) == as_map(keys, values).insert(key, value@),
{
    let before = as_map(keys, values);
    let longer = keys.push(key);
    let after = as_map(longer, values.push(value));
    assert forall|i: int, j: int|
        0 <= i < longer.len() && 0 <= j < longer.len() && i != j implies longer[i]
        != longer[j] by {
        if i < keys.len() {
            assert(keys.contains(keys[i]));
        }
        if j < keys.len() {
            assert(keys.contains(keys[j]));
        }
    }
    assert(longer[keys.len() as int] == key);
    assert forall|k: Seq<char>| after.contains_key(k) == before.insert(key, value@).contains_key(
        k,
    ) by {
        if keys.contains(k) {
            let i = keys.index_of(k);
            assert(longer[i] == k);
        }
        if longer.contains(k) {
            let i = longer.index_of(k);
            if i < keys.len() {
                assert(keys[i] == k);
            }
        }
    }
    assert forall|k: Seq<char>| after.contains_key(k) implies #[trigger] after[k] == before.insert(
        key,
        value@,
    )[k] by {
        let i = longer.index_of(k);
        assert(longer[i] == k);
        if i < keys.len() {
            assert(keys[i] == k);
            let j = keys.index_of(k);
            assert(keys[j] == k);
            assert(i == j);
        }
    }
    assert(after =~= before.insert(key, value@));
}

impl<V: View> View for StringMap<V> {
    type V = Map<Seq<char>, V::V>;

    closed spec fn view(&self) -> Map<Seq<char>, V::V> {
        as_map(texts(self.keys@), self.values@)
    }
}

impl<V> StringMap<V> {
    #[verifier::type_invariant]
    spec fn well_formed(self) -> bool {
        &&& self.keys.len() == self.values.len()
        &&& texts(self.keys@).no_duplicates()
    }
}

impl<V: View> StringMap<V> {
    /// The keys, in the order of insertion.
    pub closed spec fn keys(&self) -> Seq<Seq<char>> {
        texts(self.keys@)
    }

    /// The values, each at the place of its key.
    pub closed spec fn values(&self) -> Seq<V> {
        self.values@
    }

    /// The place of `key`, or `None` where the map does not hold it.
    pub open spec fn index_of(&self, key: Seq<char>) -> Option<int> {
        if self.keys().contains(key) {
            Some(self.keys().index_of(key))
        } else {
            None
        }
    }

    /// The value of `key`, or `None` where the map does not hold it.
    pub open spec fn get(&self, key: Seq<char>) -> Option<V> {
        match self.index_of(key) {
            Some(i) => Some(self.values()[i]),
            None => None,
        }
    }

    /// A map without entries.
    pub fn new() -> (map: Self)
        ensures
            map.keys().len() == 0,
            map.values().len() == 0,
    {
        StringMap { keys: Vec::new(), values: Vec::new() }
    }

    /// The number of entries. Every key has its value and occurs once.
    pub fn len(&self) -> (count: usize)
        ensures
            count == self.keys().len(),
            self.values().len() == self.keys().len(),
            self.keys().no_duplicates(),
            self@ == as_map(self.keys(), self.values()),
    {
        proof {
            use_type_invariant(self);
        }
        self.keys.len()
    }

    /// The place of `key`.
    pub fn position(&self, key: &str) -> (place: Option<usize>)
        ensures
            self.values().len() == self.keys().len(),
            self.keys().no_duplicates(),
            self@ == as_map(self.keys(), self.values()),
            (match place {
                Some(i) => self.index_of(key@) == Some(i as int) && i < self.keys().len()
                    && self.keys()[i as int] == key@ && self@.contains_key(key@) && self@[key@]
                    == self.values()[i as int]@,
                None => self.index_of(key@) is None && !self.keys().contains(key@)
                    && !self@.contains_key(key@),
            }),
    {
        proof {
            use_type_invariant(self);
        }
        let mut i: usize = 0;
        while i < self.keys.len()
            invariant
                i <= self.keys.len(),
                self.keys.len() == self.values.len(),
                self.keys().no_duplicates(),
                forall|k: int| 0 <= k < i ==> self.keys()[k] != key@,
            decreases self.keys.len() - i,
        {
            if str_equal(self.keys[i].as_str(), key) {
                assert(self.keys()[i as int] == key@);
                assert(self.keys().contains(key@));
                assert(self.keys().index_of(key@) == i as int);
                return Some(i);
            }
            i = i + 1;
        }
        None
    }

    /// The key at place `i`.
    pub fn key_at(&self, i: usize) -> (key: &String)
        requires
            i < self.keys().len(),
        ensures
            key@ == self.keys()[i as int],
    {
        &self.keys[i]
    }

    /// The value at place `i`.
    pub fn value_at(&self, i: usize) -> (value: &V)
        requires
            i < self.keys().len(),
        ensures
            *value == self.values()[i as int],
    {
        proof {
            use_type_invariant(self);
        }
        &self.values[i]
    }

    /// The value at place `i`, to be changed where it stands.
    pub fn value_at_mut(&mut self, i: usize) -> (value: &mut V)
        requires
            i < old(self).keys().len(),
        ensures
            *value == old(self).values()[i as int],
            final(self).keys() == old(self).keys(),
            final(self).values() == old(self).values().update(i as int, *final(value)),
            final(self)@ == old(self)@.insert(old(self).keys()[i as int], (*final(value))@),
    {
        proof {
            use_type_invariant(&*self);
        }
        let value = &mut self.values[i];
        proof {
            lemma_as_map_update(old(self).keys(), old(self).values(), i as int, *final(value));
        }
        value
    }

    /// Gives `key` the value `value`: a new key is added at the end, a key
    /// that the map holds keeps its place. Returns the value that `key` had.
    pub fn insert(&mut self, key: String, value: V) -> (previous: Option<V>)
        ensures
            (match old(self).index_of(key@) {
                Some(i) => {
                    &&& previous == Some(old(self).values()[i])
                    &&& final(self).keys() == old(self).keys()
                    &&& final(self).values() == old(self).values().update(i, value)
                },
                None => {
                    &&& previous is None
                    &&& final(self).keys() == old(self).keys().push(key@)
                    &&& final(self).values() == old(self).values().push(value)
                },
            }),
            final(self)@ == old(self)@.insert(key@, value@),
    {
        let place = self.position(key.as_str());
        let mut taken: StringMap<V> = StringMap::new();
        core::mem::swap(self, &mut taken);
        proof {
            use_type_invariant(&taken);
        }
        let StringMap { mut keys, mut values } = taken;
        let previous = match place {
            Some(i) => {
                values.push(value);
                let replaced = values.swap_remove(i);
                assert(values@ =~= old(self).values@.update(i as int, value));
                proof {
                    lemma_as_map_update(old(self).keys(), old(self).values(), i as int, value);
                }
                Some(replaced)
            },
            None => {
                let ghost before = texts(keys@);
                keys.push(key);
                values.push(value);
                assert(texts(keys@) =~= before.push(key@));
                proof {
                    lemma_as_map_push(old(self).keys(), old(self).values(), key@, value);
                }
                None
            },
        };
        *self = StringMap { keys, values };
        previous
    }
}

impl Clone for StringMap<String> {
    fn clone(&self) -> (copy: Self)
        ensures
            copy.keys() == self.keys(),
            texts(copy.values()) == texts(self.values()),
            copy@ == self@,
    {
        proof {
            use_type_invariant(self);
        }
        let mut keys: Vec<String> = Vec::new();
        let mut values: Vec<String> = Vec::new();
        let mut i: usize = 0;
        while i < self.keys.len()
            invariant
                i <= self.keys.len(),
                self.keys.len() == self.values.len(),
                texts(keys@) == texts(self.keys@).take(i as int),
                texts(values@) == texts(self.values@).take(i as int),
            decreases self.keys.len() - i,
        {
            let ghost copied_keys = texts(keys@);
            let ghost copied_values = texts(values@);
            let key = self.keys[i].clone();
            let value = self.values[i].clone();
            keys.push(key);
            values.push(value);
            assert(texts(keys@) =~= copied_keys.push(self.keys[i as int]@));
            assert(texts(values@) =~= copied_values.push(self.values[i as int]@));
            assert(texts(self.keys@).take(i + 1) =~= texts(self.keys@).take(i as int).push(
                self.keys[i as int]@,
            ));
            assert(texts(self.values@).take(i + 1) =~= texts(self.values@).take(i as int).push(
                self.values[i as int]@,
            ));
            i = i + 1;
        }
        assert(texts(self.keys@).take(i as int) =~= texts(self.keys@));
        assert(texts(self.values@).take(i as int) =~= texts(self.values@));
        let copy = StringMap { keys, values };
        assert(copy@ =~= self@) by {
            assert forall|key: Seq<char>| copy@.contains_key(key) implies #[trigger] copy@[key]
                == self@[key] by {
                let k = texts(self.keys@).index_of(key);
                assert(texts(copy.values@)[k] == texts(self.values@)[k]);
            }
        }
        copy
    }
}

} // verus!
