//! When two JSON values are equal: the order of the entries of an object does not count.

use crate::json::{
    fields, jsons, key_from, keys_once, lemma_array_view, lemma_key_from, lemma_key_is,
    lemma_object_view, Json, JsonV,
};
use crate::text::same;
use vstd::prelude::*;

verus! {

/// Whether no key occurs twice among the entries.
fn has_keys_once(o: &Vec<(String, Json)>) -> (r: bool)
    ensures
        r == keys_once(fields(o@)),
{
    let ghost f = fields(o@);
    let n: usize = o.len();
    for i in 0..n
        invariant
            f == fields(o@),
            n == o@.len(),
            forall|a: int, b: int| 0 <= a < i && a < b < n ==> (#[trigger] f[a]).0 != (#[trigger]
            f[b]).0,
    {
        for j in (i + 1)..n
            invariant
                f == fields(o@),
                n == o@.len(),
                i < n,
                forall|b: int| i < b < j ==> f[i as int].0 != (#[trigger] f[b]).0,
        {
            if same(o[i].0.as_str(), o[j].0.as_str()) {
                assert(f[i as int].0 == f[j as int].0);
                return false;
            }
        }
    }
    true
}

/// Whether the value under the key of the entry, among the entries `t`, is that of the entry
/// but for the order of entries.
spec fn stands_in(e: (Seq<char>, JsonV), t: Seq<(Seq<char>, JsonV)>) -> bool {
    match key_from(t, e.0, 0) {
        Some(j) => e.1.same_value(t[j].1),
        None => false,
    }
}

/// Whether the object `a` has the keys of the entries.
fn has_keys_of(a: &Json, y: &Vec<(String, Json)>) -> (r: bool)
    requires
        a is Object,
    ensures
        r == (forall|j: int|
            0 <= j < y@.len() ==> key_from(a@->Object_0, (#[trigger] fields(y@)[j]).0, 0) is Some),
{
    if let Json::Object(x) = a {
        proof {
            lemma_object_view(*x);
        }
    }
    for j in 0..y.len()
        invariant
            a@ is Object,
            forall|k: int|
                0 <= k < j ==> key_from(a@->Object_0, (#[trigger] fields(y@)[k]).0, 0) is Some,
    {
        assert(fields(y@)[j as int].0 == y@[j as int].0@);
        if a.get(y[j].0.as_str()).is_none() {
            return false;
        }
    }
    true
}

/// Whether two values are the same but for the order of entries.
fn equal(a: &Json, b: &Json) -> (r: bool)
    ensures
        r == a@.same_value(b@),
    decreases a,
{
    match (a, b) {
        (Json::Null, Json::Null) => true,
        (Json::Bool(x), Json::Bool(y)) => *x == *y,
        (Json::UInt(x), Json::UInt(y)) => *x == *y,
        (Json::NegInt(x), Json::NegInt(y)) => *x == *y,
        (Json::UInt(x), Json::NegInt(y)) => *y >= 0 && *x == *y as u64,
        (Json::NegInt(x), Json::UInt(y)) => *x >= 0 && *x as u64 == *y,
        (Json::Float(x), Json::Float(y)) => same(x.as_str(), y.as_str()),
        (Json::Str(x), Json::Str(y)) => same(x.as_str(), y.as_str()),
        (Json::Array(x), Json::Array(y)) => {
            let ghost (s, t) = (jsons(x@), jsons(y@));
            proof {
                lemma_array_view(*x);
                lemma_array_view(*y);
            }
            let n: usize = x.len();
            if n != y.len() {
                return false;
            }
            for i in 0..n
                invariant
                    *a == Json::Array(*x),
                    s == jsons(x@),
                    t == jsons(y@),
                    n == s.len(),
                    n == t.len(),
                    a@ == JsonV::Array(s),
                    b@ == JsonV::Array(t),
                    forall|k: int| 0 <= k < i ==> (#[trigger] s[k]).same_value(t[k]),
            {
                proof {
                    assert(decreases_to!(a => a->Array_0));
                    assert(decreases_to!(x => x@));
                    assert(decreases_to!(x@ => x@[i as int]));
                }
                if !equal(&x[i], &y[i]) {
                    assert(!s[i as int].same_value(t[i as int]));
                    return false;
                }
            }
            true
        },
        (Json::Object(x), Json::Object(y)) => {
            let ghost (s, t) = (fields(x@), fields(y@));
            proof {
                lemma_object_view(*x);
                lemma_object_view(*y);
            }
            let n: usize = x.len();
            if n != y.len() || !has_keys_once(y) || !has_keys_of(a, y) {
                return false;
            }
            for i in 0..n
                invariant
                    *a == Json::Object(*x),
                    s == fields(x@),
                    t == fields(y@),
                    n == s.len(),
                    n == t.len(),
                    a@ == JsonV::Object(s),
                    b@ == JsonV::Object(t),
                    keys_once(t),
                    a@.same_value(b@) == (forall|k: int|
                        0 <= k < s.len() ==> stands_in(#[trigger] s[k], t)),
                    forall|k: int| 0 <= k < i ==> stands_in(#[trigger] s[k], t),
            {
                let key = x[i].0.as_str();
                let mut j: usize = 0;
                while j < n && !same(key, y[j].0.as_str())
                    invariant
                        t == fields(y@),
                        n == t.len(),
                        key@ == s[i as int].0,
                        j <= n,
                        forall|q: int| 0 <= q < j ==> (#[trigger] t[q]).0 != key@,
                    decreases n - j,
                {
                    j = j + 1;
                }
                if j == n {
                    proof {
                        lemma_key_from(t, key@, 0);
                        assert(!stands_in(s[i as int], t));
                    }
                    return false;
                }
                proof {
                    lemma_key_is(t, key@, 0, j as int);
                    assert(decreases_to!(a => a->Object_0));
                    assert(decreases_to!(x => x@));
                    assert(decreases_to!(x@ => x@[i as int]));
                    assert(decreases_to!(x@[i as int] => x@[i as int].1));
                }
                if !equal(&x[i].1, &y[j].1) {
                    assert(!stands_in(s[i as int], t));
                    return false;
                }
            }
            true
        },
        _ => false,
    }
}

impl PartialEq for Json {
    fn eq(&self, other: &Json) -> (r: bool) {
        equal(self, other)
    }
}

impl vstd::std_specs::cmp::PartialEqSpecImpl for Json {
    open spec fn obeys_eq_spec() -> bool {
        true
    }

    open spec fn eq_spec(&self, other: &Json) -> bool {
        self@.same_value(other@)
    }
}

impl Eq for Json {

}

} // verus!
