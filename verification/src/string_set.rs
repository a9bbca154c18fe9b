//! A set of strings that keeps the order of insertion.

use crate::text::{owned, same, texts};
use vstd::prelude::*;

verus! {

/// A set of strings.
#[derive(Debug)]
pub struct StringSet {
    items: Vec<String>,
}

impl View for StringSet {
    type V = Set<Seq<char>>;

    closed spec fn view(&self) -> Set<Seq<char>> {
        texts(self.items@).to_set()
    }
}

impl StringSet {
    #[verifier::type_invariant]
    spec fn distinct(self) -> bool {
        texts(self.items@).no_duplicates()
    }

    /// The empty set.
    pub fn new() -> (r: StringSet)
        ensures
            r@ == Set::<Seq<char>>::empty(),
    {
        let items: Vec<String> = Vec::new();
        assert(texts(items@) =~= Seq::empty());
        assert(texts(items@).to_set() =~= Set::empty());
        StringSet { items }
    }

    /// How many strings the set holds.
    pub fn len(&self) -> (r: usize)
        ensures
            self@.finite(),
            r == self@.len(),
    {
        proof {
            use_type_invariant(self);
            texts(self.items@).unique_seq_to_set();
        }
        self.items.len()
    }

    pub fn is_empty(&self) -> (r: bool)
        ensures
            r == (self@ == Set::<Seq<char>>::empty()),
    {
        proof {
            if self.items@.len() == 0 {
                assert(texts(self.items@).to_set() =~= Set::empty());
            } else {
                assert(texts(self.items@).to_set().contains(texts(self.items@)[0]));
            }
        }
        self.items.len() == 0
    }

    /// The strings, in the order of their insertion.
    pub fn items(&self) -> (r: &Vec<String>)
        ensures
            texts(r@).to_set() == self@,
            texts(r@).no_duplicates(),
    {
        proof {
            use_type_invariant(self);
        }
        &self.items
    }

    pub fn contains(&self, s: &str) -> (r: bool)
        ensures
            r == self@.contains(s@),
    {
        match position(&self.items, s) {
            Some(i) => {
                assert(texts(self.items@)[i as int] == s@);
                true
            },
            None => {
                assert(!texts(self.items@).contains(s@));
                false
            },
        }
    }

    /// Adds a string; whether it is new.
    pub fn insert(&mut self, s: &str) -> (r: bool)
        ensures
            final(self)@ == old(self)@.insert(s@),
            r == !old(self)@.contains(s@),
    {
        proof {
            use_type_invariant(&*self);
        }
        let ghost before = texts(self.items@);
        if self.contains(s) {
            assert(before.to_set().insert(s@) =~= before.to_set());
            return false;
        }
        let mut items: Vec<String> = Vec::new();
        std::mem::swap(&mut items, &mut self.items);
        items.push(owned(s));
        proof {
            let after = texts(items@);
            assert(after =~= before.push(s@));
            assert(after.to_set() =~= before.to_set().insert(s@)) by {
                assert forall|x: Seq<char>| before.to_set().insert(s@).contains(x) implies after.to_set().contains(
                x) by {
                    if x == s@ {
                        assert(after[before.len() as int] == x);
                    } else {
                        let i = choose|i: int| 0 <= i < before.len() && before[i] == x;
                        assert(after[i] == x);
                    }
                }
            }
        }
        self.items = items;
        true
    }

    /// Removes a string; whether it was there.
    pub fn remove(&mut self, s: &str) -> (r: bool)
        ensures
            final(self)@ == old(self)@.remove(s@),
            r == old(self)@.contains(s@),
    {
        proof {
            use_type_invariant(&*self);
        }
        let ghost before = texts(self.items@);
        match position(&self.items, s) {
            Some(i) => {
                let mut items: Vec<String> = Vec::new();
                std::mem::swap(&mut items, &mut self.items);
                let gone = items.remove(i);
                proof {
                    let after = texts(items@);
                    assert(after =~= before.remove(i as int));
                    assert(before[i as int] == s@);
                    assert(after.to_set() =~= before.to_set().remove(s@)) by {
                        assert forall|x: Seq<char>| before.to_set().remove(s@).contains(x) implies after.to_set().contains(
                        x) by {
                            let j = choose|j: int| 0 <= j < before.len() && before[j] == x;
                            if j < i {
                                assert(after[j] == x);
                            } else {
                                assert(after[j - 1] == x);
                            }
                        }
                    }
                    assert(before.to_set().contains(s@));
                }
                self.items = items;
                true
            },
            None => {
                assert(!before.contains(s@));
                assert(before.to_set().remove(s@) =~= before.to_set());
                false
            },
        }
    }

    /// Removes every string.
    pub fn clear(&mut self)
        ensures
            final(self)@ == Set::<Seq<char>>::empty(),
    {
        *self = StringSet::new();
    }
}

impl Clone for StringSet {
    fn clone(&self) -> (r: StringSet)
        ensures
            r@ == self@,
    {
        proof {
            use_type_invariant(self);
        }
        StringSet { items: crate::text::clone_strings(self.items.as_slice()) }
    }
}

/// The position of the first string of `v` that is `s`.
pub fn position(v: &Vec<String>, s: &str) -> (r: Option<usize>)
    ensures
        match r {
            Some(i) => i < v@.len() && v@[i as int]@ == s@ && forall|j: int|
                0 <= j < i ==> (#[trigger] v@[j])@ != s@,
            None => forall|j: int| 0 <= j < v@.len() ==> (#[trigger] v@[j])@ != s@,
        },
{
    let mut i: usize = 0;
    while i < v.len()
        invariant
            i <= v@.len(),
            forall|j: int| 0 <= j < i ==> (#[trigger] v@[j])@ != s@,
        decreases v.len() - i,
    {
        if same(v[i].as_str(), s) {
            return Some(i);
        }
        i = i + 1;
    }
    None
}

} // verus!
