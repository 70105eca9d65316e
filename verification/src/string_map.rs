//! A map from strings to values.

use vstd::prelude::*;

verus! {

/// A map from strings to values, in the order in which its keys were first
/// inserted. No key occurs twice.
pub struct StringMap<V> {
    entries: Vec<(String, V)>,
}

/// Whether some entry has the given key.
spec fn found<V>(entries: Seq<(String, V)>, key: Seq<char>) -> bool {
    exists|i: int| 0 <= i < entries.len() && (#[trigger] entries[i]).0@ == key
}

/// The position of an entry with the given key.
spec fn position<V>(entries: Seq<(String, V)>, key: Seq<char>) -> int {
    choose|i: int| 0 <= i < entries.len() && (#[trigger] entries[i]).0@ == key
}

/// The map that the entries stand for.
spec fn contents<V>(entries: Seq<(String, V)>) -> Map<Seq<char>, V> {
    Map::new(|key: Seq<char>| found(entries, key), |key: Seq<char>| entries[position(entries, key)].1)
}

impl<V> View for StringMap<V> {
    type V = Map<Seq<char>, V>;

    closed spec fn view(&self) -> Map<Seq<char>, V> {
        contents(self.entries@)
    }
}

impl<V> StringMap<V> {
    #[verifier::type_invariant]
    spec fn keys_are_distinct(self) -> bool {
        forall|i: int, j: int|
            0 <= i < j < self.entries@.len() ==> (#[trigger] self.entries@[i]).0@ != (
            #[trigger] self.entries@[j]).0@
    }

    /// Creates an empty map.
    pub fn new() -> (res: Self)
        ensures
            res@ == Map::<Seq<char>, V>::empty(),
    {
        let res = StringMap { entries: Vec::new() };
        assert(res@ =~= Map::<Seq<char>, V>::empty());
        res
    }

    /// The value of a key.
    pub fn get(&self, key: &str) -> (res: Option<&V>)
        ensures
            match res {
                Some(v) => self@.contains_key(key@) && *v == self@[key@],
                None => !self@.contains_key(key@),
            },
    {
        proof {
            use_type_invariant(self);
        }
        let wanted = key.to_owned();
        let mut i: usize = 0;
        while i < self.entries.len()
            invariant
                wanted@ == key@,
                i <= self.entries@.len(),
                self.keys_are_distinct(),
                forall|j: int| 0 <= j < i ==> (#[trigger] self.entries@[j]).0@ != key@,
            decreases self.entries@.len() - i,
        {
            if self.entries[i].0 == wanted {
                assert(self.entries@[i as int].0@ == key@);
                return Some(&self.entries[i].1);
            }
            i += 1;
        }
        None
    }

    /// Whether a key has a value.
    pub fn contains_key(&self, key: &str) -> (res: bool)
        ensures
            res == self@.contains_key(key@),
    {
        self.get(key).is_some()
    }

    /// Gives a key a value, in place of the one that it had.
    pub fn insert(&mut self, key: String, value: V)
        ensures
            final(self)@ == old(self)@.insert(key@, value),
    {
        proof {
            use_type_invariant(&*self);
        }
        let mut entries: Vec<(String, V)> = Vec::new();
        std::mem::swap(&mut entries, &mut self.entries);
        let ghost before = entries@;
        let mut i: usize = 0;
        while i < entries.len() && !(entries[i].0 == key)
            invariant
                i <= entries@.len(),
                entries@ == before,
                forall|j: int| 0 <= j < i ==> (#[trigger] entries@[j]).0@ != key@,
            decreases entries@.len() - i,
        {
            i += 1;
        }
        if i < entries.len() {
            let ghost at = i as int;
            entries[i] = (key, value);
            proof {
                assert(before[at].0@ == key@);
                assert(entries@ == before.update(at, (key, value)));
                assert forall|k: Seq<char>| #[trigger] found(entries@, k) <==> found(before, k) by {
                    if found(before, k) {
                        let p = position(before, k);
                        assert(entries@[p].0@ == k);
                    }
                    if found(entries@, k) {
                        let p = position(entries@, k);
                        assert(before[p].0@ == k);
                    }
                }
                assert forall|k: Seq<char>| found(before, k) implies #[trigger] contents(entries@)[k]
                    == contents(before).insert(key@, value)[k] by {
                    let p = position(before, k);
                    let q = position(entries@, k);
                    assert(found(entries@, k));
                    assert(before[p].0@ == k);
                    assert(entries@[q].0@ == k);
                    assert(before[q].0@ == k);
                    assert(p == q);
                }
                assert(found(before, key@));
                assert(contents(entries@) =~= contents(before).insert(key@, value));
            }
        } else {
            entries.push((key, value));
            proof {
                let n = before.len() as int;
                assert(entries@ == before.push((key, value)));
                assert forall|k: Seq<char>| #[trigger] found(entries@, k) <==> found(before, k) || k == key@ by {
                    if found(before, k) {
                        let p = position(before, k);
                        assert(entries@[p].0@ == k);
                    }
                    if found(entries@, k) {
                        let p = position(entries@, k);
                        assert(p < n ==> before[p].0@ == k);
                    }
                    assert(entries@[n].0@ == key@);
                }
                assert forall|k: Seq<char>| found(entries@, k) implies #[trigger] contents(entries@)[k]
                    == contents(before).insert(key@, value)[k] by {
                    let q = position(entries@, k);
                    assert(entries@[q].0@ == k);
                    if k != key@ {
                        let p = position(before, k);
                        assert(before[p].0@ == k);
                        assert(before[q].0@ == k);
                        assert(p == q);
                    } else {
                        assert(q == n);
                    }
                }
                assert(contents(entries@).dom() =~= contents(before).insert(key@, value).dom());
                assert(contents(entries@) =~= contents(before).insert(key@, value));
            }
        }
        self.entries = entries;
    }

    /// The number of keys.
    pub fn len(&self) -> (res: usize)
        ensures
            res == self@.dom().len(),
            self@.dom().finite(),
    {
        proof {
            use_type_invariant(self);
            self.lemma_len();
        }
        self.entries.len()
    }

    /// The keys, each once.
    pub fn keys(&self) -> (res: Vec<&String>)
        ensures
            res@.len() == self@.dom().len(),
            forall|k: Seq<char>|
                self@.contains_key(k) <==> exists|i: int|
                    0 <= i < res@.len() && (#[trigger] res@[i])@ == k,
            forall|i: int, j: int|
                0 <= i < j < res@.len() ==> (#[trigger] res@[i])@ != (#[trigger] res@[j])@,
    {
        proof {
            use_type_invariant(self);
            self.lemma_len();
        }
        let mut res: Vec<&String> = Vec::new();
        let mut i: usize = 0;
        while i < self.entries.len()
            invariant
                i <= self.entries@.len(),
                res@.len() == i,
                forall|j: int| 0 <= j < i ==> #[trigger] res@[j] == &self.entries@[j].0,
            decreases self.entries@.len() - i,
        {
            res.push(&self.entries[i].0);
            i += 1;
        }
        proof {
            assert forall|k: Seq<char>| self@.contains_key(k) implies exists|i: int|
                0 <= i < res@.len() && (#[trigger] res@[i])@ == k by {
                let p = position(self.entries@, k);
                assert(res@[p]@ == k);
            }
            assert forall|k: Seq<char>|
                (exists|i: int| 0 <= i < res@.len() && (#[trigger] res@[i])@ == k) implies self@.contains_key(
                k,
            ) by {
                let p = choose|i: int| 0 <= i < res@.len() && (#[trigger] res@[i])@ == k;
                assert(self.entries@[p].0@ == k);
            }
        }
        res
    }

    proof fn lemma_len(&self)
        requires
            self.keys_are_distinct(),
        ensures
            self@.dom().finite(),
            self@.dom().len() == self.entries@.len(),
    {
        let names = Seq::new(self.entries@.len(), |i: int| self.entries@[i].0@);
        assert(names.no_duplicates()) by {
            assert forall|i: int, j: int| 0 <= i < names.len() && 0 <= j < names.len() && i != j implies names[i]
                != names[j] by {
                if i < j {
                    assert(self.entries@[i].0@ != self.entries@[j].0@);
                } else {
                    assert(self.entries@[j].0@ != self.entries@[i].0@);
                }
            }
        }
        names.unique_seq_to_set();
        assert(names.to_set() =~= self@.dom()) by {
            assert forall|k: Seq<char>| names.to_set().contains(k) <==> self@.dom().contains(k) by {
                if names.contains(k) {
                    let i = choose|i: int| 0 <= i < names.len() && names[i] == k;
                    assert(self.entries@[i].0@ == k);
                }
                if found(self.entries@, k) {
                    let p = position(self.entries@, k);
                    assert(names[p] == k);
                }
            }
        }
    }
}

} // verus!
