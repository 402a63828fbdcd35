//! A map from strings to values that hands its entries out in ascending
//! order of the keys.

use vstd::prelude::*;
use crate::order::{
    lemma_text_before_irreflexive, lemma_text_before_total, lemma_text_before_transitive,
    string_before, text_before,
};

verus! {

/// The keys ascend strictly in the order of strings.
pub open spec fn keys_ascending<V>(entries: Seq<(Seq<char>, V)>) -> bool {
    forall|i: int, j: int|
        0 <= i < j < entries.len() ==> text_before(
            (#[trigger] entries[i]).0,
            (#[trigger] entries[j]).0,
        )
}

/// Some entry has the key `key`.
pub open spec fn has_key<V>(entries: Seq<(Seq<char>, V)>, key: Seq<char>) -> bool {
    exists|i: int| 0 <= i < entries.len() && (#[trigger] entries[i]).0 == key
}

/// `entries` are the entries of `map`, each once, in ascending order of the keys.
pub open spec fn lists_map<V>(entries: Seq<(Seq<char>, V)>, map: Map<Seq<char>, V>) -> bool {
    &&& keys_ascending(entries)
    &&& forall|i: int|
        0 <= i < entries.len() ==> map.dom().contains((#[trigger] entries[i]).0) && map[entries[i].0]
            == entries[i].1
    &&& forall|key: Seq<char>| map.dom().contains(key) ==> #[trigger] has_key(entries, key)
}

/// The entries of a vector of pairs, with the keys as character sequences.
pub open spec fn pairs_view<V>(pairs: Seq<(String, V)>) -> Seq<(Seq<char>, V)> {
    Seq::new(pairs.len(), |i: int| (pairs[i].0@, pairs[i].1))
}

/// A map from strings to values.
pub struct StringMap<V> {
    entries: Vec<(String, V)>,
}

/// A place at which `entries` hold `key`, where they hold it.
pub open spec fn key_index<V>(entries: Seq<(Seq<char>, V)>, key: Seq<char>) -> int {
    choose|i: int| 0 <= i < entries.len() && (#[trigger] entries[i]).0 == key
}

/// The value that `entries` hold for `key`.
pub open spec fn value_at<V>(entries: Seq<(Seq<char>, V)>, key: Seq<char>) -> V {
    entries[key_index(entries, key)].1
}

/// Ascending entries hold each key once.
pub proof fn lemma_ascending_keys_differ<V>(entries: Seq<(Seq<char>, V)>, i: int, j: int)
    requires
        keys_ascending(entries),
        0 <= i < entries.len(),
        0 <= j < entries.len(),
        entries[i].0 == entries[j].0,
    ensures
        i == j,
{
    lemma_text_before_irreflexive(entries[i].0);
    if i < j {
        assert(text_before(entries[i].0, entries[j].0));
    } else if j < i {
        assert(text_before(entries[j].0, entries[i].0));
    }
}

impl<V> View for StringMap<V> {
    type V = Map<Seq<char>, V>;

    closed spec fn view(&self) -> Map<Seq<char>, V> {
        Map::new(
            |key: Seq<char>| has_key(pairs_view(self.entries@), key),
            |key: Seq<char>| value_at(pairs_view(self.entries@), key),
        )
    }
}

impl<V> StringMap<V> {
    /// The entries are held in ascending order of the keys.
    pub closed spec fn wf(&self) -> bool {
        keys_ascending(pairs_view(self.entries@))
    }

    /// A well-formed map is listed by its entries.
    proof fn lemma_listed(&self)
        requires
            self.wf(),
        ensures
            lists_map(pairs_view(self.entries@), self@),
    {
        let entries = pairs_view(self.entries@);
        assert forall|i: int| 0 <= i < entries.len() implies self@.dom().contains(
            (#[trigger] entries[i]).0,
        ) && self@[entries[i].0] == entries[i].1 by {
            let key = entries[i].0;
            assert(has_key(entries, key));
            assert(self@.dom().contains(key));
            let j = key_index(entries, key);
            lemma_ascending_keys_differ(entries, i, j);
            assert(self@[key] == value_at(entries, key));
        }
    }

    /// The empty map.
    pub fn new() -> (map: StringMap<V>)
        ensures
            map.wf(),
            map@ == Map::<Seq<char>, V>::empty(),
    {
        let map = StringMap { entries: Vec::new() };
        assert(map@ =~= Map::<Seq<char>, V>::empty());
        map
    }

    /// The number of entries whose key comes before `key`.
    fn rank(&self, key: &String) -> (place: usize)
        requires
            self.wf(),
        ensures
            place <= self.entries@.len(),
            forall|k: int| 0 <= k < place ==> text_before(self.entries@[k].0@, key@),
            forall|k: int|
                place <= k < self.entries@.len() ==> !text_before(self.entries@[k].0@, key@),
            place < self.entries@.len() && self.entries@[place as int].0@ != key@ ==> text_before(
                key@,
                self.entries@[place as int].0@,
            ),
            self@.dom().contains(key@) <==> place < self.entries@.len()
                && self.entries@[place as int].0@ == key@,
    {
        let mut place: usize = 0;
        while place < self.entries.len() && string_before(&self.entries[place].0, key)
            invariant
                place <= self.entries@.len(),
                forall|k: int| 0 <= k < place ==> text_before(self.entries@[k].0@, key@),
            decreases self.entries@.len() - place,
        {
            place += 1;
        }
        proof {
            let entries = pairs_view(self.entries@);
            assert forall|k: int| place <= k < entries.len() implies !text_before(
                self.entries@[k].0@,
                key@,
            ) by {
                if k > place && text_before(entries[k].0, key@) {
                    assert(text_before(entries[place as int].0, entries[k].0));
                    lemma_text_before_transitive(entries[place as int].0, entries[k].0, key@);
                }
            }
            if place < entries.len() {
                lemma_text_before_total(entries[place as int].0, key@);
            }
            if self@.dom().contains(key@) {
                let j = choose|j: int| 0 <= j < entries.len() && (#[trigger] entries[j]).0 == key@;
                lemma_text_before_irreflexive(key@);
                if j > place {
                    assert(text_before(entries[place as int].0, entries[j].0));
                    lemma_text_before_total(entries[place as int].0, key@);
                    if text_before(key@, entries[place as int].0) {
                        lemma_text_before_transitive(key@, entries[place as int].0, entries[j].0);
                    }
                }
                assert(entries[j].0 == self.entries@[j].0@);
            }
            if place < entries.len() && entries[place as int].0 == key@ {
                assert(has_key(entries, key@));
            }
        }
        place
    }

    /// Whether the map has an entry for `key`.
    pub fn contains_key(&self, key: &String) -> (found: bool)
        requires
            self.wf(),
        ensures
            found == self@.dom().contains(key@),
    {
        let place = self.rank(key);
        place < self.entries.len() && self.entries[place].0 == *key
    }

    /// The value of `key`, if the map has one.
    pub fn get(&self, key: &String) -> (value: Option<&V>)
        requires
            self.wf(),
        ensures
            match value {
                Some(v) => self@.dom().contains(key@) && *v == self@[key@],
                None => !self@.dom().contains(key@),
            },
    {
        let place = self.rank(key);
        if place < self.entries.len() && self.entries[place].0 == *key {
            proof {
                self.lemma_listed();
                assert(pairs_view(self.entries@)[place as int].0 == key@);
            }
            Some(&self.entries[place].1)
        } else {
            None
        }
    }

    /// Takes the entry of `key` out of the map and returns its value, if
    /// the map has one.
    pub fn remove(&mut self, key: &String) -> (value: Option<V>)
        requires
            old(self).wf(),
        ensures
            final(self).wf(),
            final(self)@ == old(self)@.remove(key@),
            match value {
                Some(v) => old(self)@.dom().contains(key@) && v == old(self)@[key@],
                None => !old(self)@.dom().contains(key@),
            },
    {
        let place = self.rank(key);
        if place < self.entries.len() && self.entries[place].0 == *key {
            let ghost before = pairs_view(self.entries@);
            proof {
                self.lemma_listed();
                assert(before[place as int].0 == key@);
            }
            let ghost old_map = self@;
            let (_, value) = self.entries.remove(place);
            proof {
                let after = pairs_view(self.entries@);
                assert(after =~= before.remove(place as int));
                assert forall|i: int, j: int| 0 <= i < j < after.len() implies text_before(
                    (#[trigger] after[i]).0,
                    (#[trigger] after[j]).0,
                ) by {
                    let bi = if i < place {
                        i
                    } else {
                        i + 1
                    };
                    let bj = if j < place {
                        j
                    } else {
                        j + 1
                    };
                    assert(after[i] == before[bi]);
                    assert(after[j] == before[bj]);
                    assert(text_before(before[bi].0, before[bj].0));
                }
                self.lemma_listed();
                assert forall|k: Seq<char>| self@.dom().contains(k) <==> old_map.remove(
                    key@,
                ).dom().contains(k) by {
                    if self@.dom().contains(k) {
                        let i = choose|i: int| 0 <= i < after.len() && (#[trigger] after[i]).0 == k;
                        let bi = if i < place {
                            i
                        } else {
                            i + 1
                        };
                        assert(before[bi].0 == k);
                        assert(has_key(before, k));
                        if k == key@ {
                            lemma_ascending_keys_differ(before, bi, place as int);
                        }
                    }
                    if old_map.remove(key@).dom().contains(k) {
                        assert(has_key(before, k));
                        let b = choose|b: int| 0 <= b < before.len() && (#[trigger] before[b]).0 == k;
                        let i = if b < place {
                            b
                        } else {
                            b - 1
                        };
                        assert(after[i].0 == k);
                    }
                }
                assert forall|k: Seq<char>| self@.dom().contains(k) implies self@[k]
                    == old_map.remove(key@)[k] by {
                    let i = choose|i: int| 0 <= i < after.len() && (#[trigger] after[i]).0 == k;
                    let bi = if i < place {
                        i
                    } else {
                        i + 1
                    };
                    assert(after[i] == before[bi]);
                    assert(self@[after[i].0] == after[i].1);
                    assert(old_map[before[bi].0] == before[bi].1);
                }
                assert(self@ =~= old_map.remove(key@));
            }
            Some(value)
        } else {
            assert(self@.remove(key@) =~= self@);
            None
        }
    }

    /// Gives `key` the value `value`, in place of the value it may have.
    pub fn insert(&mut self, key: String, value: V)
        requires
            old(self).wf(),
        ensures
            final(self).wf(),
            final(self)@ == old(self)@.insert(key@, value),
    {
        let ghost old_map = self@;
        let _ = self.remove(&key);
        let ghost mid_map = self@;
        let place = self.rank(&key);
        let ghost before = pairs_view(self.entries@);
        proof {
            self.lemma_listed();
        }
        self.entries.insert(place, (key, value));
        proof {
            let after = pairs_view(self.entries@);
            assert(after =~= before.insert(place as int, (key@, value)));
            assert forall|i: int, j: int| 0 <= i < j < after.len() implies text_before(
                (#[trigger] after[i]).0,
                (#[trigger] after[j]).0,
            ) by {
                if i < place && j > place {
                    assert(text_before(before[i].0, before[j - 1].0));
                } else if i < place && j < place {
                    assert(text_before(before[i].0, before[j].0));
                } else if i > place {
                    assert(text_before(before[i - 1].0, before[j - 1].0));
                } else if i == place {
                    assert(after[j] == before[j - 1]);
                    assert(before[place as int].0 == self.entries@[place + 1].0@);
                    if j - 1 > place {
                        assert(text_before(before[place as int].0, before[j - 1].0));
                        lemma_text_before_transitive(key@, before[place as int].0, before[j - 1].0);
                    }
                } else {
                    assert(after[i] == before[i]);
                }
            }
            self.lemma_listed();
            assert forall|k: Seq<char>| self@.dom().contains(k) <==> mid_map.insert(
                key@,
                value,
            ).dom().contains(k) by {
                if self@.dom().contains(k) {
                    let i = choose|i: int| 0 <= i < after.len() && (#[trigger] after[i]).0 == k;
                    if i != place {
                        let bi = if i < place {
                            i
                        } else {
                            i - 1
                        };
                        assert(before[bi].0 == k);
                    }
                }
                if mid_map.dom().contains(k) {
                    assert(has_key(before, k));
                    let b = choose|b: int| 0 <= b < before.len() && (#[trigger] before[b]).0 == k;
                    let i = if b < place {
                        b
                    } else {
                        b + 1
                    };
                    assert(after[i].0 == k);
                }
                if k == key@ {
                    assert(after[place as int].0 == k);
                }
            }
            assert forall|k: Seq<char>| self@.dom().contains(k) implies self@[k] == mid_map.insert(
                key@,
                value,
            )[k] by {
                let i = choose|i: int| 0 <= i < after.len() && (#[trigger] after[i]).0 == k;
                assert(self@[after[i].0] == after[i].1);
                if i != place {
                    let bi = if i < place {
                        i
                    } else {
                        i - 1
                    };
                    assert(after[i] == before[bi]);
                    assert(mid_map[before[bi].0] == before[bi].1);
                    assert(mid_map.dom().contains(k));
                }
            }
            assert(self@ =~= mid_map.insert(key@, value));
            assert(mid_map.insert(key@, value) =~= old_map.insert(key@, value));
        }
    }

    /// A map holds finitely many keys.
    pub proof fn lemma_finite(&self)
        requires
            self.wf(),
        ensures
            self@.dom().finite(),
    {
        self.lemma_listed();
        lemma_listing_len(pairs_view(self.entries@), self@);
    }

    /// The number of entries.
    pub fn len(&self) -> (n: usize)
        requires
            self.wf(),
        ensures
            n == self@.dom().len(),
            self@.dom().finite(),
    {
        proof {
            self.lemma_listed();
            lemma_listing_len(pairs_view(self.entries@), self@);
        }
        self.entries.len()
    }

    /// The entries of the map, in ascending order of the keys.
    pub fn entries(&self) -> (entries: &Vec<(String, V)>)
        requires
            self.wf(),
        ensures
            lists_map(pairs_view(entries@), self@),
    {
        proof {
            self.lemma_listed();
        }
        &self.entries
    }

    /// The entries of the map, in ascending order of the keys.
    pub fn into_entries(self) -> (entries: Vec<(String, V)>)
        requires
            self.wf(),
        ensures
            lists_map(pairs_view(entries@), self@),
    {
        proof {
            self.lemma_listed();
        }
        self.entries
    }
}

/// A map has as many entries as its listing.
pub proof fn lemma_listing_len<V>(entries: Seq<(Seq<char>, V)>, map: Map<Seq<char>, V>)
    requires
        lists_map(entries, map),
    ensures
        map.dom().finite(),
        map.dom().len() == entries.len(),
    decreases entries.len(),
{
    if entries.len() == 0 {
        assert forall|k: Seq<char>| !map.dom().contains(k) by {
            if map.dom().contains(k) {
                assert(has_key(entries, k));
            }
        }
        assert(map.dom() =~= Set::<Seq<char>>::empty());
    } else {
        let last = entries.last();
        let front = entries.drop_last();
        let rest = map.remove(last.0);
        assert forall|i: int| 0 <= i < front.len() implies rest.dom().contains(
            (#[trigger] front[i]).0,
        ) && rest[front[i].0] == front[i].1 by {
            assert(front[i] == entries[i]);
            if front[i].0 == last.0 {
                lemma_ascending_keys_differ(entries, i, entries.len() - 1);
            }
        }
        assert forall|key: Seq<char>| rest.dom().contains(key) implies #[trigger] has_key(
            front,
            key,
        ) by {
            assert(has_key(entries, key));
            let i = choose|i: int| 0 <= i < entries.len() && (#[trigger] entries[i]).0 == key;
            assert(front[i].0 == key);
        }
        assert forall|i: int, j: int| 0 <= i < j < front.len() implies text_before(
            (#[trigger] front[i]).0,
            (#[trigger] front[j]).0,
        ) by {
            assert(front[i] == entries[i]);
            assert(front[j] == entries[j]);
        }
        lemma_listing_len(front, rest);
        assert(entries[entries.len() - 1] == last);
        assert(map.dom() =~= rest.dom().insert(last.0));
    }
}

} // verus!
