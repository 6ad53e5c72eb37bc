//! A string-keyed table that keeps its entries in insertion order.

use vstd::prelude::*;
use crate::text::str_eq;

verus! {

/// The map from keys to values that parallel `keys` and `vals` describe,
/// later entries taking precedence.
pub open spec fn assoc<V>(keys: Seq<Seq<char>>, vals: Seq<V>) -> Map<Seq<char>, V>
    decreases keys.len(),
{
    if keys.len() == 0 || vals.len() == 0 {
        Map::empty()
    } else {
        assoc(keys.drop_last(), vals.drop_last()).insert(keys.last(), vals.last())
    }
}

/// `assoc` is finite, has exactly the keys of `keys`, and maps each key to the
/// value at the key's last position.
pub proof fn lemma_assoc<V>(keys: Seq<Seq<char>>, vals: Seq<V>)
    requires
        keys.len() == vals.len(),
    ensures
        assoc(keys, vals).dom().finite(),
        forall|k: Seq<char>| #[trigger] assoc(keys, vals).contains_key(k) <==> keys.contains(k),
        forall|i: int|
            0 <= i < keys.len() && (forall|j: int| i < j < keys.len() ==> keys[j] != keys[i])
                ==> #[trigger] assoc(keys, vals)[keys[i]] == vals[i],
    decreases keys.len(),
{
    if keys.len() > 0 {
        let kp = keys.drop_last();
        let vp = vals.drop_last();
        lemma_assoc(kp, vp);
        assert forall|k: Seq<char>| #[trigger] assoc(keys, vals).contains_key(k)
            <==> keys.contains(k) by {
            if keys.contains(k) && k != keys.last() {
                let j = choose|j: int| 0 <= j < keys.len() && keys[j] == k;
                assert(kp[j] == k);
            }
            if kp.contains(k) {
                let j = choose|j: int| 0 <= j < kp.len() && kp[j] == k;
                assert(keys[j] == k);
            }
            if k == keys.last() {
                assert(keys[keys.len() - 1] == k);
            }
        }
        assert forall|i: int|
            0 <= i < keys.len() && (forall|j: int| i < j < keys.len() ==> keys[j] != keys[i])
            implies #[trigger] assoc(keys, vals)[keys[i]] == vals[i] by {
            if i < keys.len() - 1 {
                assert(kp[i] == keys[i]);
                assert(keys[i] != keys[keys.len() - 1]);
                assert forall|j: int| i < j < kp.len() implies kp[j] != kp[i] by {
                    assert(kp[j] == keys[j]);
                }
            }
        }
    }
}

/// Replacing the value at the last position of a key is inserting it.
pub proof fn lemma_assoc_update<V>(keys: Seq<Seq<char>>, vals: Seq<V>, i: int, v: V)
    requires
        keys.len() == vals.len(),
        0 <= i < keys.len(),
        forall|j: int| i < j < keys.len() ==> keys[j] != keys[i],
    ensures
        assoc(keys, vals.update(i, v)) == assoc(keys, vals).insert(keys[i], v),
{
    let nv = vals.update(i, v);
    lemma_assoc(keys, vals);
    lemma_assoc(keys, nv);
    let lhs = assoc(keys, nv);
    let rhs = assoc(keys, vals).insert(keys[i], v);
    assert forall|k: Seq<char>| #[trigger] lhs.contains_key(k) <==> rhs.contains_key(k) by {
        if k == keys[i] {
            assert(keys.contains(k));
        }
    }
    assert forall|k: Seq<char>| lhs.contains_key(k) implies #[trigger] lhs[k] == rhs[k] by {
        if k != keys[i] {
            keys.index_of_last_ensures(k);
            let j = keys.index_of_last(k).unwrap();
            assert(lhs[keys[j]] == nv[j]);
        }
    }
    assert(lhs =~= rhs);
}

/// A string-keyed table: at most one entry per key, entries kept in the
/// order their keys were first inserted.
pub struct Registry<T: View> {
    entries: Vec<(String, T)>,
}

impl<T: View> Registry<T> {
    /// The keys, in insertion order.
    pub closed spec fn keys(&self) -> Seq<Seq<char>> {
        self.entries@.map_values(|e: (String, T)| e.0@)
    }

    /// The values, parallel to `keys`.
    pub closed spec fn values(&self) -> Seq<T::V> {
        self.entries@.map_values(|e: (String, T)| e.1@)
    }

    /// What the table maps each key to.
    pub closed spec fn map(&self) -> Map<Seq<char>, T::V> {
        assoc(self.keys(), self.values())
    }

    /// The table's map is finite, has exactly its keys, and maps each key to
    /// the value at the key's last position (its only one: inserting keeps
    /// keys distinct).
    pub proof fn lemma_shape(&self)
        ensures
            self.keys().len() == self.values().len(),
            self.map().dom().finite(),
            forall|k: Seq<char>| #[trigger] self.map().contains_key(k) <==> self.keys().contains(k),
            forall|i: int|
                0 <= i < self.keys().len() && (forall|j: int|
                    i < j < self.keys().len() ==> self.keys()[j] != self.keys()[i])
                    ==> #[trigger] self.map()[self.keys()[i]] == self.values()[i],
            self.keys().no_duplicates() ==> forall|i: int|
                0 <= i < self.keys().len() ==> #[trigger] self.map()[self.keys()[i]]
                    == self.values()[i],
    {
        lemma_assoc(self.keys(), self.values());
    }

    /// An empty table.
    pub fn new() -> (r: Self)
        ensures
            r.keys() == Seq::<Seq<char>>::empty(),
            r.values() == Seq::<T::V>::empty(),
            r.map() == Map::<Seq<char>, T::V>::empty(),
            r.keys().no_duplicates(),
    {
        let r = Registry { entries: Vec::new() };
        assert(r.keys() =~= Seq::<Seq<char>>::empty());
        assert(r.values() =~= Seq::<T::V>::empty());
        r
    }

    /// The number of entries.
    pub fn len(&self) -> (r: usize)
        ensures
            r == self.keys().len(),
            r == self.values().len(),
    {
        self.entries.len()
    }

    /// The last position of `key`, if the table holds it.
    pub fn position(&self, key: &str) -> (r: Option<usize>)
        ensures
            match r {
                Some(i) => i < self.keys().len() && self.keys()[i as int] == key@ && forall|j: int|
                    i < j < self.keys().len() ==> self.keys()[j] != key@,
                None => !self.keys().contains(key@),
            },
    {
        let mut i: usize = self.entries.len();
        while i > 0
            invariant
                i <= self.entries@.len(),
                forall|j: int| i <= j < self.entries@.len() ==> self.keys()[j] != key@,
            decreases i,
        {
            i = i - 1;
            if str_eq(self.entries[i].0.as_str(), key) {
                return Some(i);
            }
        }
        None
    }

    /// The key at position `i`.
    pub fn key_at(&self, i: usize) -> (r: &String)
        requires
            i < self.keys().len(),
        ensures
            r@ == self.keys()[i as int],
    {
        &self.entries[i].0
    }

    /// The value at position `i`.
    pub fn value_at(&self, i: usize) -> (r: &T)
        requires
            i < self.keys().len(),
        ensures
            r@ == self.values()[i as int],
    {
        &self.entries[i].1
    }

    /// The value stored under `key`, if any.
    pub fn get(&self, key: &str) -> (r: Option<&T>)
        ensures
            match r {
                Some(v) => self.map().contains_key(key@) && v@ == self.map()[key@],
                None => !self.map().contains_key(key@),
            },
    {
        proof {
            self.lemma_shape();
        }
        match self.position(key) {
            Some(i) => Some(&self.entries[i].1),
            None => None,
        }
    }

    /// Stores `value` under `key`: in place where the key is present, as a
    /// new last entry otherwise.
    pub fn insert(&mut self, key: String, value: T)
        ensures
            final(self).map() == old(self).map().insert(key@, value@),
            old(self).keys().contains(key@) ==> final(self).keys() == old(self).keys(),
            !old(self).keys().contains(key@) ==> final(self).keys() == old(self).keys().push(
                key@,
            ),
            old(self).keys().no_duplicates() ==> final(self).keys().no_duplicates(),
            forall|i: int|
                0 <= i < old(self).keys().len() && old(self).keys()[i] != key@
                    ==> #[trigger] final(self).values()[i] == old(self).values()[i],
    {
        let ghost ok = self.keys();
        let ghost ov = self.values();
        match self.position(key.as_str()) {
            Some(i) => {
                self.entries.set(i, (key, value));
                proof {
                    assert(self.keys() =~= ok.update(i as int, key@));
                    assert(ok.update(i as int, key@) =~= ok);
                    assert(self.values() =~= ov.update(i as int, value@));
                    lemma_assoc_update(ok, ov, i as int, value@);
                }
            },
            None => {
                self.entries.push((key, value));
                proof {
                    assert(self.keys() =~= ok.push(key@));
                    assert(self.values() =~= ov.push(value@));
                    assert(self.keys().drop_last() =~= ok);
                    assert(self.values().drop_last() =~= ov);
                    assert(ok.no_duplicates() ==> self.keys().no_duplicates()) by {
                        assert forall|a: int, b: int|
                            ok.no_duplicates() && 0 <= a < self.keys().len() && 0 <= b
                                < self.keys().len() && a != b
                            implies self.keys()[a] != self.keys()[b] by {
                            if a == ok.len() as int {
                                assert(ok.contains(ok[b]));
                            } else if b == ok.len() as int {
                                assert(ok.contains(ok[a]));
                            }
                        }
                    }
                }
            },
        }
    }

    /// Puts `value` at position `i` in place of the value there, which it
    /// returns; keys are unchanged.
    pub fn replace_at(&mut self, i: usize, value: T) -> (prev: T)
        requires
            i < old(self).keys().len(),
        ensures
            prev@ == old(self).values()[i as int],
            final(self).keys() == old(self).keys(),
            final(self).values() == old(self).values().update(i as int, value@),
            (forall|j: int| i < j < old(self).keys().len() ==> old(self).keys()[j] != old(
                self,
            ).keys()[i as int]) ==> final(self).map() == old(self).map().insert(
                old(self).keys()[i as int],
                value@,
            ),
    {
        let ghost ok = self.keys();
        let ghost ov = self.values();
        let (k, prev) = self.entries.remove(i);
        self.entries.insert(i, (k, value));
        proof {
            assert(self.keys() =~= ok);
            assert(self.values() =~= ov.update(i as int, value@));
            if forall|j: int| i < j < ok.len() ==> ok[j] != ok[i as int] {
                lemma_assoc_update(ok, ov, i as int, value@);
            }
        }
        prev
    }
}

} // verus!
