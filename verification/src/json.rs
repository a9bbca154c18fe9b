//! JSON values and the operations the agent performs on them.
//!
//! A value is modelled by [`JsonV`]: numbers that are integers by an integer, a
//! floating-point number by its shortest decimal text, an object by its entries
//! in order.

use crate::text::{owned, same, texts};
use vstd::prelude::*;

verus! {

/// A JSON value.
#[derive(Debug)]
pub enum Json {
    Null,
    Bool(bool),
    /// A non-negative integer.
    UInt(u64),
    /// An integer below zero.
    NegInt(i64),
    /// A floating-point number, as its shortest decimal text.
    Float(String),
    Str(String),
    Array(Vec<Json>),
    Object(Vec<(String, Json)>),
}

/// The model of a [`Json`].
pub enum JsonV {
    Null,
    Bool(bool),
    Int(int),
    Float(Seq<char>),
    Str(Seq<char>),
    Array(Seq<JsonV>),
    Object(Seq<(Seq<char>, JsonV)>),
}

impl View for Json {
    type V = JsonV;

    open spec fn view(&self) -> JsonV
        decreases self,
    {
        match self {
            Json::Null => JsonV::Null,
            Json::Bool(b) => JsonV::Bool(*b),
            Json::UInt(n) => JsonV::Int(*n as int),
            Json::NegInt(n) => JsonV::Int(*n as int),
            Json::Float(s) => JsonV::Float(s@),
            Json::Str(s) => JsonV::Str(s@),
            Json::Array(a) => JsonV::Array(
                Seq::new(
                    a@.len(),
                    |i: int|
                        if 0 <= i < a@.len() {
                            a@[i].view()
                        } else {
                            JsonV::Null
                        },
                ),
            ),
            Json::Object(o) => JsonV::Object(
                Seq::new(
                    o@.len(),
                    |i: int|
                        if 0 <= i < o@.len() {
                            (o@[i].0@, o@[i].1.view())
                        } else {
                            (Seq::empty(), JsonV::Null)
                        },
                ),
            ),
        }
    }
}

/// The models of the values of `s`.
pub open spec fn jsons(s: Seq<Json>) -> Seq<JsonV> {
    s.map_values(|j: Json| j@)
}

/// The models of the entries of `s`.
pub open spec fn fields(s: Seq<(String, Json)>) -> Seq<(Seq<char>, JsonV)> {
    s.map_values(|e: (String, Json)| (e.0@, e.1@))
}

/// The model of an optional value.
pub open spec fn opt_json(v: Option<&Json>) -> Option<JsonV> {
    match v {
        Some(j) => Some(j@),
        None => None,
    }
}

/// The model of an array is made of the models of its elements.
pub broadcast proof fn lemma_array_view(a: Vec<Json>)
    ensures
        #[trigger] Json::Array(a)@ == JsonV::Array(jsons(a@)),
{
    assert(Json::Array(a)@->Array_0 =~= jsons(a@));
}

/// The model of an object is made of the models of its entries.
pub broadcast proof fn lemma_object_view(o: Vec<(String, Json)>)
    ensures
        #[trigger] Json::Object(o)@ == JsonV::Object(fields(o@)),
{
    let j = Json::Object(o);
    let s = j@->Object_0;
    reveal_with_fuel(<Json as View>::view, 2);
    assert(s.len() == o@.len());
    assert(s =~= fields(o@));
}

/// The position, from `i` on, of the first entry with key `k`.
pub open spec fn key_from(s: Seq<(Seq<char>, JsonV)>, k: Seq<char>, i: int) -> Option<int>
    decreases s.len() - i,
{
    if i < 0 || i >= s.len() {
        None
    } else if s[i].0 == k {
        Some(i)
    } else {
        key_from(s, k, i + 1)
    }
}

/// The entries `s` with `v` under the key `k`: in the place of the first entry
/// with that key, or at the end.
pub open spec fn put(s: Seq<(Seq<char>, JsonV)>, k: Seq<char>, v: JsonV) -> Seq<
    (Seq<char>, JsonV),
> {
    match key_from(s, k, 0) {
        Some(i) => s.update(i, (k, v)),
        None => s.push((k, v)),
    }
}

/// The entries of `s` whose key is not `k`.
pub open spec fn without(s: Seq<(Seq<char>, JsonV)>, k: Seq<char>) -> Seq<(Seq<char>, JsonV)> {
    s.filter(|e: (Seq<char>, JsonV)| e.0 != k)
}

impl JsonV {
    /// What an object holds under `k`; nothing where there is no such entry, or
    /// where the value is no object.
    pub open spec fn get(self, k: Seq<char>) -> Option<JsonV> {
        match self {
            JsonV::Object(s) => match key_from(s, k, 0) {
                Some(i) => Some(s[i].1),
                None => None,
            },
            _ => None,
        }
    }

    /// As [`JsonV::get`], with null where there is nothing.
    pub open spec fn at(self, k: Seq<char>) -> JsonV {
        match self.get(k) {
            Some(v) => v,
            None => JsonV::Null,
        }
    }

    /// The object with `v` under `k`.
    pub open spec fn set(self, k: Seq<char>, v: JsonV) -> JsonV {
        match self {
            JsonV::Object(s) => JsonV::Object(put(s, k, v)),
            _ => self,
        }
    }

    /// The object without the key `k`; any other value as it is.
    pub open spec fn remove(self, k: Seq<char>) -> JsonV {
        match self {
            JsonV::Object(s) => JsonV::Object(without(s, k)),
            _ => self,
        }
    }

    pub open spec fn as_str(self) -> Option<Seq<char>> {
        match self {
            JsonV::Str(s) => Some(s),
            _ => None,
        }
    }

    pub open spec fn as_u64(self) -> Option<u64> {
        match self {
            JsonV::Int(n) => if 0 <= n <= u64::MAX {
                Some(n as u64)
            } else {
                None
            },
            _ => None,
        }
    }

    pub open spec fn as_bool(self) -> Option<bool> {
        match self {
            JsonV::Bool(b) => Some(b),
            _ => None,
        }
    }

    pub open spec fn as_array(self) -> Option<Seq<JsonV>> {
        match self {
            JsonV::Array(a) => Some(a),
            _ => None,
        }
    }

    /// The text that an object holds under `k`.
    pub open spec fn str_at(self, k: Seq<char>) -> Option<Seq<char>> {
        match self.get(k) {
            Some(v) => v.as_str(),
            None => None,
        }
    }

    /// The text that an object holds under `k`, or `d`.
    pub open spec fn str_or(self, k: Seq<char>, d: Seq<char>) -> Seq<char> {
        match self.str_at(k) {
            Some(s) => s,
            None => d,
        }
    }

    /// Whether no floating-point number occurs in the value.
    pub open spec fn float_free(self) -> bool
        decreases self,
    {
        match self {
            JsonV::Float(_) => false,
            JsonV::Array(a) => forall|i: int| 0 <= i < a.len() ==> (#[trigger] a[i]).float_free(),
            JsonV::Object(o) => forall|i: int|
                0 <= i < o.len() ==> (#[trigger] o[i]).1.float_free(),
            _ => true,
        }
    }
}

/// The key under which `serde_json`, built with its `raw_value` feature, expects JSON text
/// in a string: an object that starts with it is read as what that text spells.
pub open spec fn reserved_key() -> Seq<char> {
    "$serde_json::private::RawValue"@
}

/// Whether no key occurs twice among the entries.
pub open spec fn keys_once(o: Seq<(Seq<char>, JsonV)>) -> bool {
    forall|i: int, j: int| 0 <= i < j < o.len() ==> (#[trigger] o[i]).0 != (#[trigger] o[j]).0
}

impl JsonV {
    /// Whether no object in the value has a key twice.
    pub open spec fn distinct_keys(self) -> bool
        decreases self,
    {
        match self {
            JsonV::Array(a) => forall|i: int|
                0 <= i < a.len() ==> (#[trigger] a[i]).distinct_keys(),
            JsonV::Object(o) => keys_once(o) && forall|i: int|
                0 <= i < o.len() ==> (#[trigger] o[i]).1.distinct_keys(),
            _ => true,
        }
    }

    /// Whether no object in the value has the key that `serde_json` reserves.
    pub open spec fn unreserved(self) -> bool
        decreases self,
    {
        match self {
            JsonV::Array(a) => forall|i: int| 0 <= i < a.len() ==> (#[trigger] a[i]).unreserved(),
            JsonV::Object(o) => forall|i: int|
                0 <= i < o.len() ==> (#[trigger] o[i]).0 != reserved_key() && o[i].1.unreserved(),
            _ => true,
        }
    }

    /// Whether `serde_json` reads the text of the value again: nothing in it has the
    /// reserved key, and it nests no deeper than `serde_json` reads.
    pub open spec fn rereads(self) -> bool {
        self.unreserved() && self.nests_within(127)
    }

    /// Whether arrays and objects nest no deeper than `n` in the value.
    pub open spec fn nests_within(self, n: int) -> bool
        decreases self,
    {
        match self {
            JsonV::Array(a) => n > 0 && forall|i: int|
                0 <= i < a.len() ==> (#[trigger] a[i]).nests_within(n - 1),
            JsonV::Object(o) => n > 0 && forall|i: int|
                0 <= i < o.len() ==> (#[trigger] o[i]).1.nests_within(n - 1),
            _ => true,
        }
    }

    /// Whether the other value is the same but for the order of entries.
    pub open spec fn same_value(self, other: JsonV) -> bool
        decreases self,
    {
        match (self, other) {
            (JsonV::Array(a), JsonV::Array(b)) => a.len() == b.len() && forall|i: int|
                0 <= i < a.len() ==> (#[trigger] a[i]).same_value(b[i]),
            (JsonV::Object(a), JsonV::Object(b)) => {
                &&& a.len() == b.len()
                &&& keys_once(b)
                &&& forall|i: int|
                    0 <= i < a.len() ==> match key_from(b, (#[trigger] a[i]).0, 0) {
                        Some(j) => a[i].1.same_value(b[j].1),
                        None => false,
                    }
                &&& forall|j: int|
                    0 <= j < b.len() ==> key_from(a, (#[trigger] b[j]).0, 0) is Some
            },
            _ => self == other,
        }
    }

    /// Whether `serde_json` can write the value and read the same back: no floating-point
    /// number, no key twice, no reserved key, and no deeper than it reads.
    pub open spec fn writable(self, n: int) -> bool {
        self.float_free() && self.distinct_keys() && self.unreserved() && self.nests_within(n)
    }
}

/// A value that is the same but for the order of entries has no other keys.
pub proof fn lemma_same_value_unreserved(a: JsonV, b: JsonV)
    requires
        a.same_value(b),
        a.unreserved(),
    ensures
        b.unreserved(),
    decreases a,
{
    if let JsonV::Array(x) = a {
        let y = b->Array_0;
        assert forall|i: int| 0 <= i < y.len() implies (#[trigger] y[i]).unreserved() by {
            lemma_same_value_unreserved(x[i], y[i]);
        }
    }
    if let JsonV::Object(x) = a {
        let y = b->Object_0;
        assert forall|j: int| 0 <= j < y.len() implies (#[trigger] y[j]).0 != reserved_key()
            && y[j].1.unreserved() by {
            lemma_key_from(x, y[j].0, 0);
            let i = key_from(x, y[j].0, 0).unwrap();
            assert(x[i].0 == y[j].0);
            lemma_key_from(y, x[i].0, 0);
            lemma_same_value_unreserved(x[i].1, y[j].1);
        }
    }
}

/// What stands under a key of an object stands there in the same object with its entries in
/// another order.
pub proof fn lemma_same_value_get(a: JsonV, b: JsonV, k: Seq<char>)
    requires
        a.same_value(b),
        a.get(k) is Some,
    ensures
        b.get(k) is Some,
        a.get(k).unwrap().same_value(b.get(k).unwrap()),
{
    let x = a->Object_0;
    let y = b->Object_0;
    lemma_key_from(x, k, 0);
    let i = key_from(x, k, 0).unwrap();
    assert(x[i].0 == k);
}

/// A found key is the first of its kind.
pub proof fn lemma_key_from(s: Seq<(Seq<char>, JsonV)>, k: Seq<char>, i: int)
    requires
        0 <= i,
    ensures
        key_from(s, k, i) matches Some(p) ==> i <= p < s.len() && s[p].0 == k && forall|q: int|
            i <= q < p ==> s[q].0 != k,
        key_from(s, k, i) is None ==> forall|q: int| i <= q < s.len() ==> s[q].0 != k,
    decreases s.len() - i,
{
    if i < s.len() && s[i].0 != k {
        lemma_key_from(s, k, i + 1);
    }
}

/// The position of a key that stands at `p` and not before it.
pub proof fn lemma_key_is(s: Seq<(Seq<char>, JsonV)>, k: Seq<char>, i: int, p: int)
    requires
        0 <= i <= p < s.len(),
        s[p].0 == k,
        forall|q: int| i <= q < p ==> s[q].0 != k,
    ensures
        key_from(s, k, i) == Some(p),
    decreases p - i,
{
    if i < p {
        lemma_key_is(s, k, i + 1, p);
    }
}

/// Reading a key back gives what was last set under it.
pub proof fn lemma_get_set(v: JsonV, k: Seq<char>, x: JsonV)
    requires
        v is Object,
    ensures
        v.set(k, x).get(k) == Some(x),
{
    let s = v->Object_0;
    lemma_key_from(s, k, 0);
    match key_from(s, k, 0) {
        Some(i) => {
            lemma_key_is(put(s, k, x), k, 0, i);
        },
        None => {
            lemma_key_is(put(s, k, x), k, 0, s.len() as int);
        },
    }
}

/// Setting one key leaves what stands under every other.
pub proof fn lemma_get_set_other(v: JsonV, k: Seq<char>, x: JsonV, other: Seq<char>)
    requires
        k != other,
    ensures
        v.set(k, x).get(other) == v.get(other),
{
    if v is Object {
        let s = v->Object_0;
        let t = put(s, k, x);
        lemma_key_from(s, k, 0);
        lemma_key_from(s, other, 0);
        lemma_key_from(t, other, 0);
        match key_from(s, other, 0) {
            Some(p) => {
                lemma_key_is(t, other, 0, p);
            },
            None => {
                if let Some(p) = key_from(t, other, 0) {
                    assert(p < s.len() ==> s[p].0 == t[p].0 || t[p].0 == k);
                    assert(false);
                }
            },
        }
    }
}

/// Nothing stands under a key that was removed.
pub proof fn lemma_get_removed(v: JsonV, k: Seq<char>)
    ensures
        v.remove(k).get(k) is None,
{
    if v is Object {
        let s = v->Object_0;
        let p = |e: (Seq<char>, JsonV)| e.0 != k;
        let t = without(s, k);
        lemma_key_from(t, k, 0);
        if let Some(i) = key_from(t, k, 0) {
            s.lemma_filter_pred(p, i);
        }
    }
}

/// Removing one key leaves what stands under every other.
pub proof fn lemma_get_removed_other(v: JsonV, k: Seq<char>, other: Seq<char>)
    requires
        k != other,
    ensures
        v.remove(k).get(other) == v.get(other),
        !(v is Object) ==> v.remove(k) == v,
{
    if v is Object {
        lemma_without(v->Object_0, k, other);
    }
}

proof fn lemma_without(s: Seq<(Seq<char>, JsonV)>, k: Seq<char>, other: Seq<char>)
    requires
        k != other,
    ensures
        match (key_from(s, other, 0), key_from(without(s, k), other, 0)) {
            (Some(i), Some(j)) => s[i].1 == without(s, k)[j].1,
            (None, None) => true,
            _ => false,
        },
    decreases s.len(),
{
    let p = |e: (Seq<char>, JsonV)| e.0 != k;
    reveal(Seq::filter);
    if s.len() > 0 {
        let t = s.drop_last();
        lemma_without(t, k, other);
        lemma_key_from(t, other, 0);
        let a = without(t, k);
        let b = without(s, k);
        assert(forall|q: int| 0 <= q < t.len() ==> t[q] == #[trigger] s[q]);
        assert(forall|q: int| 0 <= q < a.len() ==> a[q] == #[trigger] b[q]);
        lemma_key_from(without(t, k), other, 0);
        match key_from(t, other, 0) {
            Some(i) => {
                lemma_key_is(s, other, 0, i);
                let j = key_from(without(t, k), other, 0).unwrap();
                lemma_key_is(without(s, k), other, 0, j);
            },
            None => {
                if s.last().0 == other {
                    lemma_key_is(s, other, 0, s.len() - 1);
                    lemma_key_is(without(s, k), other, 0, without(s, k).len() - 1);
                } else {
                    lemma_key_from(s, other, 0);
                    lemma_key_from(without(s, k), other, 0);
                }
            },
        }
    }
}

/// Under the key of an entry stands the value of that entry, where no key occurs twice.
pub proof fn lemma_get_entry(o: Seq<(Seq<char>, JsonV)>, i: int)
    requires
        keys_once(o),
        0 <= i < o.len(),
    ensures
        JsonV::Object(o).get(o[i].0) == Some(o[i].1),
{
    lemma_key_is(o, o[i].0, 0, i);
}

/// Nothing stands under a key that no entry has.
pub proof fn lemma_get_none(o: Seq<(Seq<char>, JsonV)>, k: Seq<char>)
    requires
        forall|i: int| 0 <= i < o.len() ==> (#[trigger] o[i]).0 != k,
    ensures
        JsonV::Object(o).get(k) is None,
{
    lemma_key_from(o, k, 0);
}

impl Json {
    /// A string value.
    pub fn text(s: &str) -> (r: Json)
        ensures
            r@ == JsonV::Str(s@),
    {
        Json::Str(owned(s))
    }

    /// The object without entries.
    pub fn object() -> (r: Json)
        ensures
            r@ == JsonV::Object(Seq::empty()),
    {
        let o: Vec<(String, Json)> = Vec::new();
        proof {
            lemma_object_view(o);
            assert(fields(o@) =~= Seq::empty());
        }
        Json::Object(o)
    }

    /// The array of the given values.
    pub fn array(a: Vec<Json>) -> (r: Json)
        ensures
            r@ == JsonV::Array(jsons(a@)),
    {
        proof {
            lemma_array_view(a);
        }
        Json::Array(a)
    }

    /// What the object holds under `k`.
    pub fn get(&self, k: &str) -> (r: Option<&Json>)
        ensures
            opt_json(r) == self@.get(k@),
    {
        match self {
            Json::Object(o) => {
                proof {
                    lemma_object_view(*o);
                }
                match find_key(o, k) {
                    Some(i) => Some(&o[i].1),
                    None => None,
                }
            },
            _ => None,
        }
    }

    pub fn as_str(&self) -> (r: Option<&str>)
        ensures
            match r {
                Some(s) => self@.as_str() == Some(s@),
                None => self@.as_str() is None,
            },
    {
        match self {
            Json::Str(s) => Some(s.as_str()),
            _ => None,
        }
    }

    pub fn as_u64(&self) -> (r: Option<u64>)
        ensures
            r == self@.as_u64(),
    {
        match self {
            Json::UInt(n) => Some(*n),
            Json::NegInt(n) => if *n >= 0 {
                Some(*n as u64)
            } else {
                None
            },
            _ => None,
        }
    }

    pub fn as_bool(&self) -> (r: Option<bool>)
        ensures
            r == self@.as_bool(),
    {
        match self {
            Json::Bool(b) => Some(*b),
            _ => None,
        }
    }

    pub fn as_array(&self) -> (r: Option<&Vec<Json>>)
        ensures
            match r {
                Some(a) => self@.as_array() == Some(jsons(a@)) && self == Json::Array(*a),
                None => self@.as_array() is None,
            },
    {
        match self {
            Json::Array(a) => {
                proof {
                    lemma_array_view(*a);
                }
                Some(a)
            },
            _ => None,
        }
    }

    pub fn is_object(&self) -> (r: bool)
        ensures
            r == (self@ is Object),
    {
        matches!(self, Json::Object(_))
    }

    pub fn is_array(&self) -> (r: bool)
        ensures
            r == (self@ is Array),
    {
        matches!(self, Json::Array(_))
    }

    pub fn is_null(&self) -> (r: bool)
        ensures
            r == (self@ is Null),
    {
        matches!(self, Json::Null)
    }

    /// The text that the object holds under `k`.
    pub fn str_at(&self, k: &str) -> (r: Option<&str>)
        ensures
            match r {
                Some(s) => self@.str_at(k@) == Some(s@),
                None => self@.str_at(k@) is None,
            },
    {
        match self.get(k) {
            Some(v) => v.as_str(),
            None => None,
        }
    }

    /// The text that the object holds under `k`, or `d`.
    pub fn str_or<'a>(&'a self, k: &str, d: &'a str) -> (r: &'a str)
        ensures
            r@ == self@.str_or(k@, d@),
    {
        match self.str_at(k) {
            Some(s) => s,
            None => d,
        }
    }

    /// Sets the entry `k` of an object; leaves any other value as it is.
    pub fn set(&mut self, k: &str, v: Json)
        ensures
            final(self)@ == old(self)@.set(k@, v@),
    {
        let mut tmp = Json::Null;
        std::mem::swap(&mut tmp, self);
        match tmp {
            Json::Object(o) => {
                let mut o = o;
                proof {
                    lemma_object_view(o);
                }
                put_field(&mut o, k, v);
                proof {
                    lemma_object_view(o);
                }
                *self = Json::Object(o);
            },
            other => {
                *self = other;
            },
        }
    }

    /// Removes the key `k` from an object; leaves any other value as it is.
    pub fn remove(&mut self, k: &str)
        ensures
            final(self)@ == old(self)@.remove(k@),
    {
        let mut tmp = Json::Null;
        std::mem::swap(&mut tmp, self);
        match tmp {
            Json::Object(o) => {
                proof {
                    lemma_object_view(o);
                }
                let kept = drop_key(&o, k);
                proof {
                    lemma_object_view(kept);
                }
                *self = Json::Object(kept);
            },
            other => {
                *self = other;
            },
        }
    }
}

impl Clone for Json {
    fn clone(&self) -> (r: Json)
        ensures
            r@ == self@,
        decreases self,
    {
        match self {
            Json::Null => Json::Null,
            Json::Bool(b) => Json::Bool(*b),
            Json::UInt(n) => Json::UInt(*n),
            Json::NegInt(n) => Json::NegInt(*n),
            Json::Float(s) => Json::Float(s.clone()),
            Json::Str(s) => Json::Str(s.clone()),
            Json::Array(a) => {
                let mut out: Vec<Json> = Vec::new();
                for i in 0..a.len()
                    invariant
                        self == Json::Array(*a),
                        out@.len() == i,
                        forall|j: int| 0 <= j < i ==> (#[trigger] out@[j])@ == a@[j]@,
                {
                    proof {
                        assert(decreases_to!(self => self->Array_0));
                        assert(decreases_to!(a => a@));
                        assert(decreases_to!(a@ => a@[i as int]));
                    }
                    out.push(a[i].clone());
                }
                proof {
                    lemma_array_view(*a);
                    lemma_array_view(out);
                    assert(jsons(out@) =~= jsons(a@));
                }
                Json::Array(out)
            },
            Json::Object(o) => {
                let mut out: Vec<(String, Json)> = Vec::new();
                for i in 0..o.len()
                    invariant
                        self == Json::Object(*o),
                        out@.len() == i,
                        forall|j: int|
                            0 <= j < i ==> (#[trigger] out@[j]).0@ == o@[j].0@ && out@[j].1@
                                == o@[j].1@,
                {
                    proof {
                        assert(decreases_to!(self => self->Object_0));
                        assert(decreases_to!(o => o@));
                        assert(decreases_to!(o@ => o@[i as int]));
                        assert(decreases_to!(o@[i as int] => o@[i as int].1));
                    }
                    out.push((o[i].0.clone(), o[i].1.clone()));
                }
                proof {
                    lemma_object_view(*o);
                    lemma_object_view(out);
                    assert(fields(out@) =~= fields(o@));
                }
                Json::Object(out)
            },
        }
    }
}

/// A value of the `serde_json` crate.
#[verifier::external_type_specification]
#[verifier::external_body]
pub struct ExValue(serde_json::Value);

/// What `serde_json::from_str::<serde_json::Value>` reads from a text; nothing
/// where it reports an error.
pub uninterp spec fn json_parse(text: Seq<char>) -> Option<JsonV>;

/// The message of the error that `serde_json::from_str` reports on a text that it
/// cannot read.
pub uninterp spec fn json_error(text: Seq<char>) -> Seq<char>;

/// The compact text that `serde_json::Value`'s `to_string` writes of a value.
pub uninterp spec fn json_write(v: JsonV) -> Seq<char>;

/// The indented text that `serde_json::to_string_pretty` writes of a value.
pub uninterp spec fn json_pretty(v: JsonV) -> Seq<char>;

/// What `serde_json::from_value::<serde_json::Value>` makes of a value; nothing where it
/// reports an error.
pub uninterp spec fn json_convert(v: JsonV) -> Option<JsonV>;

/// The message of the error that `serde_json::from_value` reports on a value.
pub uninterp spec fn json_convert_error(v: JsonV) -> Seq<char>;

/// The value of `serde_json` as a [`Json`], variant by variant.
#[verifier::external_body]
fn from_value(v: serde_json::Value) -> Json {
    match v {
        serde_json::Value::Null => Json::Null,
        serde_json::Value::Bool(b) => Json::Bool(b),
        serde_json::Value::Number(n) => match (n.as_u64(), n.as_i64()) {
            (Some(u), _) => Json::UInt(u),
            (None, Some(i)) => Json::NegInt(i),
            (None, None) => Json::Float(n.to_string()),
        },
        serde_json::Value::String(s) => Json::Str(s),
        serde_json::Value::Array(a) => Json::Array(a.into_iter().map(from_value).collect()),
        serde_json::Value::Object(m) => Json::Object(
            m.into_iter().map(|(k, x)| (k, from_value(x))).collect(),
        ),
    }
}

/// The [`Json`] as a value of `serde_json`, variant by variant; the text of a
/// floating-point number that is not finite becomes null, as in `serde_json`.
#[verifier::external_body]
fn to_value(j: &Json) -> serde_json::Value {
    match j {
        Json::Null => serde_json::Value::Null,
        Json::Bool(b) => serde_json::Value::Bool(*b),
        Json::UInt(u) => serde_json::Value::from(*u),
        Json::NegInt(i) => serde_json::Value::from(*i),
        Json::Float(s) => s.parse().ok().and_then(serde_json::Number::from_f64).map_or(
            serde_json::Value::Null,
            serde_json::Value::Number,
        ),
        Json::Str(s) => serde_json::Value::String(s.clone()),
        Json::Array(a) => serde_json::Value::Array(a.iter().map(to_value).collect()),
        Json::Object(o) => o.iter().map(|(k, x)| (k.clone(), to_value(x))).collect(),
    }
}

/// `serde_json::from_str::<serde_json::Value>`: what it reads, or the error it reports,
/// depends on the text alone. The text that `serde_json` writes of a value that it has
/// read is read as the same value, where it has no floating-point number and no reserved
/// key and nests no deeper than 127 levels.
#[verifier::external_body]
fn serde_parse(text: &str) -> (r: Result<Json, String>)
    ensures
        match r {
            Ok(j) => json_parse(text@) == Some(j@),
            Err(e) => json_parse(text@) is None && e@ == json_error(text@),
        },
        r matches Ok(j) ==> j@.float_free() && j@.rereads() ==> json_parse(json_write(j@)) == Some(
            j@,
        ),
{
    serde_json::from_str::<serde_json::Value>(text).map(from_value).map_err(|e| e.to_string())
}

/// `to_string` of `serde_json::Value`: the text depends on the value alone. `serde_json` reads
/// what it wrote, and an object as an object, where the value has no reserved key and nests
/// no deeper than 127 levels.
#[verifier::external_body]
fn serde_write(j: &Json) -> (r: String)
    ensures
        r@ == json_write(j@),
        j@.rereads() ==> json_parse(r@) is Some,
        j@.rereads() && j@ is Object ==> json_parse(r@).unwrap() is Object,
{
    to_value(j).to_string()
}

/// `serde_json::to_string_pretty` of a `serde_json::Value`: the text depends on the value
/// alone. `serde_json` reads what it wrote as the same value, with the entries of objects in
/// the order of their keys; it reads no deeper than 127 levels. Nothing is said of a value
/// with a floating-point number, with a reserved key, or with a key twice in one object.
#[verifier::external_body]
fn serde_pretty(j: &Json) -> (r: String)
    ensures
        r@ == json_pretty(j@),
        j@.writable(127) ==> json_parse(r@) is Some,
        j@.writable(127) ==> j@.same_value(json_parse(r@).unwrap()),
{
    serde_json::to_string_pretty(&to_value(j)).unwrap_or_default()
}

/// `serde_json::from_value::<serde_json::Value>`: what it makes of a value, or the error it
/// reports, depends on the value alone.
#[verifier::external_body]
fn serde_convert(j: &Json) -> (r: Result<Json, String>)
    ensures
        match r {
            Ok(c) => json_convert(j@) == Some(c@),
            Err(e) => json_convert(j@) is None && e@ == json_convert_error(j@),
        },
{
    serde_json::from_value::<serde_json::Value>(to_value(j)).map(from_value).map_err(
        |e| e.to_string(),
    )
}

impl JsonV {
    /// The value as a reader of values takes it: as it is, but for objects under the
    /// reserved key, which `serde_json` reads or refuses.
    pub open spec fn converted(self) -> Option<JsonV> {
        if self.unreserved() {
            Some(self)
        } else {
            json_convert(self)
        }
    }
}

impl JsonV {
    /// A part of a record: what stands under the key `k` of an object, or, where the record
    /// is written as an array, at `i`.
    pub open spec fn part(self, k: Seq<char>, i: int) -> Option<JsonV> {
        match self {
            JsonV::Array(a) => if 0 <= i < a.len() {
                Some(a[i])
            } else {
                None
            },
            _ => self.get(k),
        }
    }

    /// The same, where it is a text.
    pub open spec fn part_text(self, k: Seq<char>, i: int) -> Option<Seq<char>> {
        match self.part(k, i) {
            Some(JsonV::Str(s)) => Some(s),
            _ => None,
        }
    }

    /// Whether the record, where it is written as an array, has `least` to `most` parts.
    pub open spec fn has_parts(self, least: int, most: int) -> bool {
        match self {
            JsonV::Array(a) => least <= a.len() <= most,
            _ => true,
        }
    }
}

impl Json {
    /// A part of a record, by its key or by its place.
    pub fn part(&self, k: &str, i: usize) -> (r: Option<&Json>)
        ensures
            match r {
                Some(j) => self@.part(k@, i as int) == Some(j@),
                None => self@.part(k@, i as int) is None,
            },
    {
        match self {
            Json::Array(a) => {
                proof {
                    lemma_array_view(*a);
                }
                if i < a.len() {
                    Some(&a[i])
                } else {
                    None
                }
            },
            _ => self.get(k),
        }
    }

    /// The same, where it is a text.
    pub fn part_text(&self, k: &str, i: usize) -> (r: Option<&str>)
        ensures
            match r {
                Some(s) => self@.part_text(k@, i as int) == Some(s@),
                None => self@.part_text(k@, i as int) is None,
            },
    {
        match self.part(k, i) {
            Some(Json::Str(s)) => Some(s.as_str()),
            _ => None,
        }
    }

    /// Whether the record, where it is written as an array, has `least` to `most` parts.
    pub fn has_parts(&self, least: usize, most: usize) -> (r: bool)
        ensures
            r == self@.has_parts(least as int, most as int),
    {
        match self {
            Json::Array(a) => {
                proof {
                    lemma_array_view(*a);
                }
                least <= a.len() && a.len() <= most
            },
            _ => true,
        }
    }

    /// Whether no object in the value has the reserved key.
    pub fn is_unreserved(&self) -> (r: bool)
        ensures
            r == self@.unreserved(),
        decreases self,
    {
        match self {
            Json::Array(a) => {
                proof {
                    lemma_array_view(*a);
                }
                for i in 0..a.len()
                    invariant
                        self == Json::Array(*a),
                        self@ == JsonV::Array(jsons(a@)),
                        forall|j: int| 0 <= j < i ==> (#[trigger] jsons(a@)[j]).unreserved(),
                {
                    proof {
                        assert(decreases_to!(self => self->Array_0));
                        assert(decreases_to!(a => a@));
                        assert(decreases_to!(a@ => a@[i as int]));
                    }
                    if !a[i].is_unreserved() {
                        proof {
                            let v = self@->Array_0;
                            assert(v[i as int] == a@[i as int]@);
                            assert(!v[i as int].unreserved());
                        }
                        return false;
                    }
                }
                true
            },
            Json::Object(o) => {
                proof {
                    lemma_object_view(*o);
                }
                for i in 0..o.len()
                    invariant
                        self == Json::Object(*o),
                        self@ == JsonV::Object(fields(o@)),
                        forall|j: int|
                            0 <= j < i ==> (#[trigger] fields(o@)[j]).0 != reserved_key()
                                && fields(o@)[j].1.unreserved(),
                {
                    proof {
                        assert(decreases_to!(self => self->Object_0));
                        assert(decreases_to!(o => o@));
                        assert(decreases_to!(o@ => o@[i as int]));
                        assert(decreases_to!(o@[i as int] => o@[i as int].1));
                    }
                    if same(o[i].0.as_str(), "$serde_json::private::RawValue")
                        || !o[i].1.is_unreserved() {
                        proof {
                            let v = self@->Object_0;
                            assert(v[i as int] == (o@[i as int].0@, o@[i as int].1@));
                            assert(v[i as int].0 == reserved_key() || !v[i as int].1.unreserved());
                        }
                        return false;
                    }
                }
                true
            },
            _ => true,
        }
    }

    /// The value as a reader of values takes it, or why it refuses it.
    pub fn convert(&self) -> (r: Result<Json, String>)
        ensures
            match r {
                Ok(c) => self@.converted() == Some(c@),
                Err(e) => self@.converted() is None && e@ == json_convert_error(self@),
            },
    {
        if self.is_unreserved() {
            Ok(self.clone())
        } else {
            serde_convert(self)
        }
    }

    /// The value that `text` spells, if it is JSON.
    pub fn parse(text: &str) -> (r: Option<Json>)
        ensures
            match r {
                Some(j) => json_parse(text@) == Some(j@),
                None => json_parse(text@) is None,
            },
            r matches Some(j) ==> j@.float_free() && j@.rereads() ==> json_parse(json_write(j@))
                == Some(j@),
    {
        match serde_parse(text) {
            Ok(j) => Some(j),
            Err(_) => None,
        }
    }

    /// The value that `text` spells, or why it is no JSON.
    pub fn read(text: &str) -> (r: Result<Json, String>)
        ensures
            match r {
                Ok(j) => json_parse(text@) == Some(j@),
                Err(e) => json_parse(text@) is None && e@ == json_error(text@),
            },
    {
        serde_parse(text)
    }

    /// The indented text of the value.
    pub fn write_pretty(&self) -> (r: String)
        ensures
            r@ == json_pretty(self@),
            self@.writable(127) ==> (json_parse(r@) matches Some(w) && self@.same_value(w)),
    {
        serde_pretty(self)
    }

    /// The compact text of the value.
    pub fn write(&self) -> (r: String)
        ensures
            r@ == json_write(self@),
            self@.rereads() ==> json_parse(r@) is Some,
            self@.rereads() && self@ is Object ==> json_parse(r@).unwrap() is Object,
    {
        serde_write(self)
    }
}

/// The position of the first entry with key `k`.
fn find_key(o: &Vec<(String, Json)>, k: &str) -> (r: Option<usize>)
    ensures
        match r {
            Some(i) => i < o@.len() && key_from(fields(o@), k@, 0) == Some(i as int),
            None => key_from(fields(o@), k@, 0) is None,
        },
{
    let mut i: usize = 0;
    while i < o.len()
        invariant
            i <= o@.len(),
            key_from(fields(o@), k@, 0) == key_from(fields(o@), k@, i as int),
        decreases o.len() - i,
    {
        if same(o[i].0.as_str(), k) {
            return Some(i);
        }
        i = i + 1;
    }
    None
}

/// Adds an entry at the end.
pub fn push_field(o: &mut Vec<(String, Json)>, k: &str, v: Json)
    ensures
        fields(final(o)@) == fields(old(o)@).push((k@, v@)),
{
    let ghost before = o@;
    o.push((owned(k), v));
    assert(fields(o@) =~= fields(before).push((k@, v@)));
}

/// Puts `v` under the key `k`.
pub fn put_field(o: &mut Vec<(String, Json)>, k: &str, v: Json)
    ensures
        fields(final(o)@) == put(fields(old(o)@), k@, v@),
{
    let ghost before = o@;
    match find_key(o, k) {
        Some(i) => {
            o.set(i, (owned(k), v));
            assert(fields(o@) =~= fields(before).update(i as int, (k@, v@)));
        },
        None => {
            push_field(o, k, v);
        },
    }
}

/// The entries whose key is not `k`.
fn drop_key(o: &Vec<(String, Json)>, k: &str) -> (r: Vec<(String, Json)>)
    ensures
        fields(r@) == without(fields(o@), k@),
{
    let mut out: Vec<(String, Json)> = Vec::new();
    let mut i: usize = 0;
    assert(fields(o@).take(0) =~= Seq::empty());
    assert(fields(out@) =~= without(fields(o@).take(0), k@)) by {
        reveal(Seq::filter);
    }
    while i < o.len()
        invariant
            i <= o@.len(),
            fields(out@) == without(fields(o@).take(i as int), k@),
        decreases o.len() - i,
    {
        let ghost before = out@;
        let ghost next = fields(o@).take(i + 1);
        proof {
            assert(next.drop_last() =~= fields(o@).take(i as int));
            assert(next.last() == (o@[i as int].0@, o@[i as int].1@));
            reveal(Seq::filter);
        }
        if !same(o[i].0.as_str(), k) {
            out.push((o[i].0.clone(), o[i].1.clone()));
            assert(fields(out@) =~= fields(before).push((o@[i as int].0@, o@[i as int].1@)));
        }
        i = i + 1;
    }
    assert(fields(o@).take(o@.len() as int) =~= fields(o@));
    out
}

/// The object with one entry.
pub open spec fn obj1_v(k: Seq<char>, v: JsonV) -> JsonV {
    JsonV::Object(seq![(k, v)])
}

/// The object with two entries.
pub open spec fn obj2_v(k: Seq<char>, v: JsonV, k2: Seq<char>, v2: JsonV) -> JsonV {
    JsonV::Object(seq![(k, v), (k2, v2)])
}

/// The object with three entries.
pub open spec fn obj3_v(
    k: Seq<char>,
    v: JsonV,
    k2: Seq<char>,
    v2: JsonV,
    k3: Seq<char>,
    v3: JsonV,
) -> JsonV {
    JsonV::Object(seq![(k, v), (k2, v2), (k3, v3)])
}

/// The array of the given texts.
pub open spec fn text_array_v(s: Seq<Seq<char>>) -> JsonV {
    JsonV::Array(s.map_values(|t: Seq<char>| JsonV::Str(t)))
}

/// The object with the entries of `o`.
pub fn object_of(o: Vec<(String, Json)>) -> (r: Json)
    ensures
        r@ == JsonV::Object(fields(o@)),
{
    proof {
        lemma_object_view(o);
    }
    Json::Object(o)
}

/// The object with one entry.
pub fn obj1(k: &str, v: Json) -> (r: Json)
    ensures
        r@ == obj1_v(k@, v@),
{
    let mut o: Vec<(String, Json)> = Vec::new();
    assert(fields(o@) =~= Seq::empty());
    push_field(&mut o, k, v);
    object_of(o)
}

/// The object with two entries.
pub fn obj2(k: &str, v: Json, k2: &str, v2: Json) -> (r: Json)
    ensures
        r@ == obj2_v(k@, v@, k2@, v2@),
{
    let mut o: Vec<(String, Json)> = Vec::new();
    assert(fields(o@) =~= Seq::empty());
    push_field(&mut o, k, v);
    push_field(&mut o, k2, v2);
    assert(fields(o@) =~= seq![(k@, v@), (k2@, v2@)]);
    object_of(o)
}

/// The object with three entries.
pub fn obj3(k: &str, v: Json, k2: &str, v2: Json, k3: &str, v3: Json) -> (r: Json)
    ensures
        r@ == obj3_v(k@, v@, k2@, v2@, k3@, v3@),
{
    let mut o: Vec<(String, Json)> = Vec::new();
    assert(fields(o@) =~= Seq::empty());
    push_field(&mut o, k, v);
    push_field(&mut o, k2, v2);
    push_field(&mut o, k3, v3);
    assert(fields(o@) =~= seq![(k@, v@), (k2@, v2@), (k3@, v3@)]);
    object_of(o)
}

/// The array of the given texts.
pub fn text_array(v: &Vec<String>) -> (r: Json)
    ensures
        r@ == text_array_v(texts(v@)),
{
    let mut a: Vec<Json> = Vec::new();
    for i in 0..v.len()
        invariant
            a@.len() == i,
            forall|j: int| 0 <= j < i ==> (#[trigger] a@[j])@ == JsonV::Str(v@[j]@),
    {
        a.push(Json::Str(v[i].clone()));
    }
    let r = Json::array(a);
    assert(r@->Array_0 =~= text_array_v(texts(v@))->Array_0);
    r
}

/// The array of one text.
pub fn text_array1(a: &str) -> (r: Json)
    ensures
        r@ == text_array_v(seq![a@]),
{
    let v: Vec<String> = vec![owned(a)];
    assert(texts(v@) =~= seq![a@]);
    text_array(&v)
}

/// The array of two texts.
pub fn text_array2(a: &str, b: &str) -> (r: Json)
    ensures
        r@ == text_array_v(seq![a@, b@]),
{
    let v: Vec<String> = vec![owned(a), owned(b)];
    assert(texts(v@) =~= seq![a@, b@]);
    text_array(&v)
}

/// The array of three texts.
pub fn text_array3(a: &str, b: &str, c: &str) -> (r: Json)
    ensures
        r@ == text_array_v(seq![a@, b@, c@]),
{
    let v: Vec<String> = vec![owned(a), owned(b), owned(c)];
    assert(texts(v@) =~= seq![a@, b@, c@]);
    text_array(&v)
}

/// A copy of every value of `v`.
pub fn clone_jsons(v: &Vec<Json>) -> (r: Vec<Json>)
    ensures
        jsons(r@) == jsons(v@),
        r@.len() == v@.len(),
{
    let mut out: Vec<Json> = Vec::new();
    for i in 0..v.len()
        invariant
            out@.len() == i,
            forall|j: int| 0 <= j < i ==> (#[trigger] out@[j])@ == v@[j]@,
    {
        out.push(v[i].clone());
    }
    assert(jsons(out@) =~= jsons(v@));
    out
}

/// Appending a value appends its model.
pub broadcast proof fn lemma_jsons_push(s: Seq<Json>, j: Json)
    ensures
        #[trigger] jsons(s.push(j)) == jsons(s).push(j@),
{
    assert(jsons(s.push(j)) =~= jsons(s).push(j@));
}

} // verus!
