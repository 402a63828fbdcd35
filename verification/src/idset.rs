//! A set of strings, used for the commit ids and paths already met. The
//! strings are kept in a vector in the order in which they came, so a lookup
//! takes time in proportion to the size of the set.

use vstd::prelude::*;
use crate::model::{clone_strings, strings_view};

verus! {

/// A finite set of strings.
pub struct StringSet {
    items: Vec<String>,
}

impl View for StringSet {
    type V = Set<Seq<char>>;

    closed spec fn view(&self) -> Set<Seq<char>> {
        strings_view(self.items@).to_set()
    }
}

impl Clone for StringSet {
    fn clone(&self) -> (copy: StringSet)
        ensures
            copy@ == self@,
            self.wf() ==> copy.wf(),
    {
        let copy = StringSet { items: clone_strings(&self.items) };
        assert(strings_view(copy.items@) =~= strings_view(self.items@));
        copy
    }
}

impl StringSet {
    /// No string is held twice, so that the number of strings held is the
    /// size of the set.
    pub closed spec fn wf(&self) -> bool {
        strings_view(self.items@).no_duplicates()
    }

    /// The empty set.
    pub fn new() -> (s: StringSet)
        ensures
            s@ == Set::<Seq<char>>::empty(),
            s.wf(),
    {
        let s = StringSet { items: Vec::new() };
        assert(strings_view(s.items@) =~= Seq::<Seq<char>>::empty());
        assert(s@ =~= Set::<Seq<char>>::empty());
        s
    }

    /// The number of strings in the set.
    pub fn len(&self) -> (n: usize)
        requires
            self.wf(),
        ensures
            n == self@.len(),
    {
        proof {
            strings_view(self.items@).unique_seq_to_set();
        }
        self.items.len()
    }

    /// The strings of the set, each once, in the order in which they came.
    pub fn to_vec(&self) -> (items: Vec<String>)
        ensures
            strings_view(items@).to_set() == self@,
            self.wf() ==> strings_view(items@).no_duplicates(),
    {
        clone_strings(&self.items)
    }

    /// Whether `item` is in the set.
    pub fn contains(&self, item: &String) -> (found: bool)
        ensures
            found == self@.contains(item@),
    {
        let mut i: usize = 0;
        while i < self.items.len()
            invariant
                i <= self.items@.len(),
                forall|j: int| 0 <= j < i ==> self.items@[j]@ != item@,
            decreases self.items@.len() - i,
        {
            if self.items[i] == *item {
                assert(strings_view(self.items@)[i as int] == item@);
                return true;
            }
            i += 1;
        }
        assert forall|j: int| 0 <= j < strings_view(self.items@).len() implies strings_view(
            self.items@,
        )[j] != item@ by {
            assert(strings_view(self.items@)[j] == self.items@[j]@);
        }
        false
    }

    /// Puts `item` into the set and says whether it was new.
    pub fn insert(&mut self, item: String) -> (fresh: bool)
        ensures
            fresh == !old(self)@.contains(item@),
            final(self)@ == old(self)@.insert(item@),
            old(self).wf() ==> final(self).wf(),
    {
        if self.contains(&item) {
            assert(self@.insert(item@) =~= self@);
            false
        } else {
            let ghost before = strings_view(self.items@);
            self.items.push(item);
            proof {
                let after = strings_view(self.items@);
                assert(after =~= before.push(item@));
                assert(after.to_set() =~= before.to_set().insert(item@)) by {
                    assert forall|x: Seq<char>| after.to_set().contains(x) implies before.to_set().insert(
                        item@,
                    ).contains(x) by {
                        let j = choose|j: int| 0 <= j < after.len() && after[j] == x;
                        if j < before.len() {
                            assert(before[j] == x);
                        }
                    }
                    assert forall|x: Seq<char>|
                        before.to_set().insert(item@).contains(x) implies after.to_set().contains(
                        x,
                    ) by {
                        if x == item@ {
                            assert(after[before.len() as int] == x);
                        } else {
                            let j = choose|j: int| 0 <= j < before.len() && before[j] == x;
                            assert(after[j] == x);
                        }
                    }
                }
                if before.no_duplicates() {
                    assert forall|a: int, b: int|
                        0 <= a < after.len() && 0 <= b < after.len() && a != b implies after[a]
                        != after[b] by {
                        if a < before.len() && b < before.len() {
                        } else if a < before.len() {
                            assert(before.to_set().contains(before[a]));
                        } else {
                            assert(before.to_set().contains(before[b]));
                        }
                    }
                }
            }
            true
        }
    }
}

} // verus!
