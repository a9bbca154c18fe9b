//! A map from strings to strings.

use crate::text::{owned, same};
use vstd::prelude::*;

verus! {

/// A map from strings to strings.
#[derive(Debug)]
pub struct StringMap {
    entries: Vec<(String, String)>,
}

spec fn keys_differ(s: Seq<(String, String)>) -> bool {
    forall|i: int, j: int| 0 <= i < j < s.len() ==> (#[trigger] s[i]).0@ != (#[trigger] s[j]).0@
}

spec fn has_key(s: Seq<(String, String)>, k: Seq<char>) -> bool {
    exists|i: int| 0 <= i < s.len() && (#[trigger] s[i]).0@ == k
}

spec fn value_of(s: Seq<(String, String)>, k: Seq<char>) -> Seq<char> {
    s[choose|i: int| 0 <= i < s.len() && (#[trigger] s[i]).0@ == k].1@
}

spec fn map_of(s: Seq<(String, String)>) -> Map<Seq<char>, Seq<char>> {
    Map::new(|k: Seq<char>| has_key(s, k), |k: Seq<char>| value_of(s, k))
}

impl View for StringMap {
    type V = Map<Seq<char>, Seq<char>>;

    closed spec fn view(&self) -> Map<Seq<char>, Seq<char>> {
        map_of(self.entries@)
    }
}

proof fn lemma_value(s: Seq<(String, String)>, i: int)
    requires
        keys_differ(s),
        0 <= i < s.len(),
    ensures
        map_of(s).dom().contains(s[i].0@),
        map_of(s)[s[i].0@] == s[i].1@,
{
    let k = s[i].0@;
    assert(has_key(s, k));
    let c = choose|c: int| 0 <= c < s.len() && (#[trigger] s[c]).0@ == k;
    assert(c == i);
}

impl StringMap {
    #[verifier::type_invariant]
    spec fn distinct(self) -> bool {
        keys_differ(self.entries@)
    }

    pub fn new() -> (r: StringMap)
        ensures
            r@ == Map::<Seq<char>, Seq<char>>::empty(),
    {
        let r = StringMap { entries: Vec::new() };
        assert(r@ =~= Map::empty());
        r
    }

    fn slot(&self, k: &str) -> (r: Option<usize>)
        ensures
            match r {
                Some(i) => i < self.entries@.len() && self.entries@[i as int].0@ == k@,
                None => !has_key(self.entries@, k@),
            },
    {
        let mut i: usize = 0;
        while i < self.entries.len()
            invariant
                i <= self.entries@.len(),
                forall|j: int| 0 <= j < i ==> (#[trigger] self.entries@[j]).0@ != k@,
            decreases self.entries.len() - i,
        {
            if same(self.entries[i].0.as_str(), k) {
                return Some(i);
            }
            i = i + 1;
        }
        None
    }

    /// The value under a key.
    pub fn get(&self, k: &str) -> (r: Option<&str>)
        ensures
            match r {
                Some(v) => self@.dom().contains(k@) && self@[k@] == v@,
                None => !self@.dom().contains(k@),
            },
    {
        proof {
            use_type_invariant(self);
        }
        match self.slot(k) {
            Some(i) => {
                proof {
                    lemma_value(self.entries@, i as int);
                }
                Some(self.entries[i].1.as_str())
            },
            None => None,
        }
    }

    /// Puts a value under a key, in place of one that is there.
    pub fn insert(&mut self, k: &str, v: &str)
        ensures
            final(self)@ == old(self)@.insert(k@, v@),
    {
        proof {
            use_type_invariant(&*self);
        }
        let ghost before = self.entries@;
        let at = self.slot(k);
        let mut entries: Vec<(String, String)> = Vec::new();
        std::mem::swap(&mut entries, &mut self.entries);
        match at {
            Some(i) => {
                entries.set(i, (owned(k), owned(v)));
            },
            None => {
                entries.push((owned(k), owned(v)));
            },
        }
        proof {
            let after = entries@;
            assert(keys_differ(after));
            assert forall|q: Seq<char>| map_of(after).dom().contains(q) == (map_of(
                before,
            ).dom().contains(q) || q == k@) by {
                if has_key(before, q) {
                    let i = choose|i: int| 0 <= i < before.len() && (#[trigger] before[i]).0@ == q;
                    assert(after[i].0@ == q);
                }
                if q == k@ {
                    match at {
                        Some(i) => assert(after[i as int].0@ == q),
                        None => assert(after[before.len() as int].0@ == q),
                    }
                }
                if has_key(after, q) && q != k@ {
                    let i = choose|i: int| 0 <= i < after.len() && (#[trigger] after[i]).0@ == q;
                    assert(before[i].0@ == q);
                }
            }
            assert forall|q: Seq<char>| map_of(after).dom().contains(q) implies map_of(after)[q]
                == map_of(before).insert(k@, v@)[q] by {
                let i = choose|i: int| 0 <= i < after.len() && (#[trigger] after[i]).0@ == q;
                lemma_value(after, i);
                if q != k@ {
                    lemma_value(before, i);
                }
            }
            assert(map_of(after) =~= map_of(before).insert(k@, v@));
        }
        self.entries = entries;
    }

    /// Takes the value from under a key.
    pub fn remove(&mut self, k: &str) -> (r: Option<String>)
        ensures
            final(self)@ == old(self)@.remove(k@),
            match r {
                Some(v) => old(self)@.dom().contains(k@) && old(self)@[k@] == v@,
                None => !old(self)@.dom().contains(k@),
            },
    {
        proof {
            use_type_invariant(&*self);
        }
        let ghost before = self.entries@;
        match self.slot(k) {
            Some(i) => {
                proof {
                    lemma_value(before, i as int);
                }
                let mut entries: Vec<(String, String)> = Vec::new();
                std::mem::swap(&mut entries, &mut self.entries);
                let (_, v) = entries.remove(i);
                proof {
                    let after = entries@;
                    assert(after =~= before.remove(i as int));
                    assert forall|q: Seq<char>| map_of(after).dom().contains(q) == (map_of(
                        before,
                    ).dom().contains(q) && q != k@) by {
                        if has_key(before, q) && q != k@ {
                            let j = choose|j: int|
                                0 <= j < before.len() && (#[trigger] before[j]).0@ == q;
                            if j < i {
                                assert(after[j].0@ == q);
                            } else {
                                assert(after[j - 1].0@ == q);
                            }
                        }
                        if has_key(after, q) {
                            let j = choose|j: int|
                                0 <= j < after.len() && (#[trigger] after[j]).0@ == q;
                            if j < i {
                                assert(before[j].0@ == q);
                            } else {
                                assert(before[j + 1].0@ == q);
                            }
                        }
                    }
                    assert forall|q: Seq<char>| map_of(after).dom().contains(q) implies map_of(
                        after,
                    )[q] == map_of(before)[q] by {
                        let j = choose|j: int| 0 <= j < after.len() && (#[trigger] after[j]).0@ == q;
                        lemma_value(after, j);
                        if j < i {
                            lemma_value(before, j);
                        } else {
                            lemma_value(before, j + 1);
                        }
                    }
                    assert(map_of(after) =~= map_of(before).remove(k@));
                }
                self.entries = entries;
                Some(v)
            },
            None => {
                assert(map_of(before).remove(k@) =~= map_of(before));
                None
            },
        }
    }
}

} // verus!
